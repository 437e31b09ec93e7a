//! Profiles: separate sets of settings and sessions, and the index of them.

use crate::extensions::claude::AssistantNames;
use crate::json::{
    has_shape, json_text, number_json, parse_json, text_json, Json, Shape,
};
use crate::path::{join_path, join_path_seq};
use crate::text::{
    alphanumeric, chars_of, concat, concat3, contains_char, decimal, decimal_reads_back,
    decimal_string, find, find_from, find_from_is_first, is_alphanumeric, join, join_seq, lowercase, occurs_at, pad_right,
    pad_right_seq, parse_unsigned, parse_unsigned_seq, same, string_of, to_lowercase, trim,
    trim_end, trim_end_seq, trim_seq,
};
use vstd::prelude::*;

verus! {

broadcast use vstd::string::group_string_axioms;

// ---------------------------------------------------------------------------
// Paths
// ---------------------------------------------------------------------------

/// Where a profile keeps its files.
#[derive(Clone, Debug, PartialEq, Eq)]
pub struct ProfilePaths {
    pub id: String,
    /// The profile's own directory.
    pub root: String,
    /// The directory of all profiles and their index.
    pub config_root: String,
}

impl ProfilePaths {
    /// The file with the workspace.
    pub fn workspace_json(&self) -> (r: String)
        ensures
            r@ == join_path_seq(self.root@, "workspace.json"@),
    {
        join_path(self.root.as_str(), "workspace.json")
    }

    /// The file with the settings.
    pub fn settings_json(&self) -> (r: String)
        ensures
            r@ == join_path_seq(self.root@, "settings.json"@),
    {
        join_path(self.root.as_str(), "settings.json")
    }

    /// The file with the key bindings.
    pub fn keybindings_json(&self) -> (r: String)
        ensures
            r@ == join_path_seq(self.root@, "keybindings.json"@),
    {
        join_path(self.root.as_str(), "keybindings.json")
    }

    /// The directory of sessions.
    pub fn sessions_dir(&self) -> (r: String)
        ensures
            r@ == join_path_seq(self.root@, "sessions"@),
    {
        join_path(self.root.as_str(), "sessions")
    }

    /// The directory of themes.
    pub fn themes_dir(&self) -> (r: String)
        ensures
            r@ == join_path_seq(self.root@, "themes"@),
    {
        join_path(self.root.as_str(), "themes")
    }

    /// The directory of downloaded updates.
    pub fn updates_dir(&self) -> (r: String)
        ensures
            r@ == join_path_seq(self.root@, "updates"@),
    {
        join_path(self.root.as_str(), "updates")
    }

    /// The lock of a running instance.
    pub fn lock_path(&self) -> (r: String)
        ensures
            r@ == join_path_seq(self.root@, "okena.lock"@),
    {
        join_path(self.root.as_str(), "okena.lock")
    }

    /// The log.
    pub fn log_path(&self) -> (r: String)
        ensures
            r@ == join_path_seq(self.root@, "okena.log"@),
    {
        join_path(self.root.as_str(), "okena.log")
    }

    /// The file of the command line client.
    pub fn cli_json(&self) -> (r: String)
        ensures
            r@ == join_path_seq(self.root@, "cli.json"@),
    {
        join_path(self.root.as_str(), "cli.json")
    }

    /// The file that tells of the remote server.
    pub fn remote_json(&self) -> (r: String)
        ensures
            r@ == join_path_seq(self.root@, "remote.json"@),
    {
        join_path(self.root.as_str(), "remote.json")
    }

    /// The secret of the remote server.
    pub fn remote_secret(&self) -> (r: String)
        ensures
            r@ == join_path_seq(self.root@, "remote_secret"@),
    {
        join_path(self.root.as_str(), "remote_secret")
    }

    /// The tokens of the remote server.
    pub fn remote_tokens(&self) -> (r: String)
        ensures
            r@ == join_path_seq(self.root@, "remote_tokens.json"@),
    {
        join_path(self.root.as_str(), "remote_tokens.json")
    }

    /// The pairing code.
    pub fn pair_code(&self) -> (r: String)
        ensures
            r@ == join_path_seq(self.root@, "pair_code"@),
    {
        join_path(self.root.as_str(), "pair_code")
    }
}

/// The profile that the process runs with, once it is known.
#[derive(Debug)]
pub struct ActiveProfile {
    pub paths: Option<ProfilePaths>,
}

/// The profile after one was handed in: the first that was.
pub open spec fn with_profile(active: ActiveProfile, paths: ProfilePaths) -> ActiveProfile {
    match active.paths {
        Some(_) => active,
        None => ActiveProfile { paths: Some(paths) },
    }
}

/// Sets the profile that the process runs with, unless one is set already; then
/// the new one is handed back.
pub fn try_init_profile(active: &mut ActiveProfile, paths: ProfilePaths) -> (r: Result<
    (),
    ProfilePaths,
>)
    ensures
        *final(active) == with_profile(*old(active), paths),
        r == (if old(active).paths is Some {
            Err(paths)
        } else {
            Ok(())
        }),
{
    if active.paths.is_some() {
        return Err(paths);
    }
    active.paths = Some(paths);
    Ok(())
}

/// Sets the profile that the process runs with. This happens once.
pub fn init_profile(active: &mut ActiveProfile, paths: ProfilePaths)
    requires
        old(active).paths is None,
    ensures
        *final(active) == with_profile(*old(active), paths),
        final(active).paths == Some(paths),
{
    active.paths = Some(paths);
}

/// The profile that was set first is never replaced.
pub proof fn first_profile_stays(active: ActiveProfile, first: ProfilePaths, second: ProfilePaths)
    requires
        active.paths is None,
    ensures
        with_profile(active, first).paths == Some(first),
        with_profile(with_profile(active, first), second) == with_profile(active, first),
{
}

/// The profile that the process runs with.
pub fn current(active: &ActiveProfile) -> (r: &ProfilePaths)
    requires
        active.paths is Some,
    ensures
        active.paths == Some(*r),
{
    match &active.paths {
        Some(paths) => paths,
        None => {
            assert(false);
            vstd::pervasive::unreached()
        },
    }
}

/// The profile that the process runs with, where it is known.
pub fn try_current(active: &ActiveProfile) -> (r: Option<&ProfilePaths>)
    ensures
        match r {
            Some(paths) => active.paths == Some(*paths),
            None => active.paths is None,
        },
{
    match &active.paths {
        Some(paths) => Some(paths),
        None => None,
    }
}

/// The directory of all profiles, in the system's directory for settings or,
/// where that is unknown, in the current one.
pub fn config_root(config_dir: Option<&str>) -> (r: String)
    ensures
        r@ == join_path_seq(
            match config_dir.deep_view() {
                Some(dir) => dir,
                None => "."@,
            },
            "okena"@,
        ),
{
    join_path(
        match config_dir {
            Some(dir) => dir,
            None => ".",
        },
        "okena",
    )
}

/// The directory for updates: the profile's, or the one of all profiles where no
/// profile is known.
pub fn get_config_dir(active: &ActiveProfile, config_dir: Option<&str>) -> (r: String)
    ensures
        r@ == (match active.paths {
            Some(paths) => join_path_seq(paths.root@, "updates"@),
            None => join_path_seq(
                match config_dir.deep_view() {
                    Some(dir) => dir,
                    None => "."@,
                },
                "okena"@,
            ),
        }),
{
    match &active.paths {
        Some(paths) => paths.updates_dir(),
        None => config_root(config_dir),
    }
}

// ---------------------------------------------------------------------------
// The index
// ---------------------------------------------------------------------------

/// A profile in the index.
#[derive(Clone, Debug, PartialEq, Eq)]
pub struct ProfileEntry {
    pub id: String,
    pub display_name: String,
    pub created_at: String,
    pub claude_config_dir: Option<String>,
    pub icon: Option<String>,
    pub color: Option<String>,
}

/// The index of all profiles.
#[derive(Clone, Debug, PartialEq, Eq)]
pub struct ProfileIndex {
    pub version: u32,
    pub profiles: Vec<ProfileEntry>,
    pub last_used: Option<String>,
    pub default_profile: String,
}

impl ProfileIndex {
    /// The ids of the profiles in order.
    pub open spec fn ids(&self) -> Seq<Seq<char>> {
        Seq::new(self.profiles@.len(), |i: int| self.profiles@[i].id@)
    }

    /// The index before the first profile.
    pub fn empty() -> (r: ProfileIndex)
        ensures
            r.version == 1,
            r.profiles@.len() == 0,
            r.last_used is None,
            r.default_profile@ == "default"@,
    {
        ProfileIndex {
            version: 1,
            profiles: Vec::new(),
            last_used: None,
            default_profile: "default".to_owned(),
        }
    }

    /// Notes the profile that was used last.
    pub fn set_last_used(&mut self, id: &str)
        ensures
            final(self).last_used.deep_view() == Some(id@),
            *final(self) == (ProfileIndex { last_used: final(self).last_used, ..*old(self) }),
    {
        self.last_used = Some(id.to_owned());
    }

    fn position(&self, id: &str) -> (r: Option<usize>)
        ensures
            match r {
                Some(i) => i < self.profiles@.len() && self.profiles@[i as int].id@ == id@,
                None => !self.ids().contains(id@),
            },
            r is Some <==> self.ids().contains(id@),
    {
        let ghost ids = self.ids();
        let mut i: usize = 0;
        while i < self.profiles.len()
            invariant
                i <= self.profiles@.len(),
                ids == self.ids(),
                forall|j: int| 0 <= j < i ==> ids[j] != id@,
            decreases self.profiles@.len() - i,
        {
            if same(self.profiles[i].id.as_str(), id) {
                assert(ids[i as int] == id@);
                return Some(i);
            }
            assert(ids[i as int] != id@);
            i = i + 1;
        }
        None
    }

    /// Whether there is a profile with an id.
    pub fn contains(&self, id: &str) -> (r: bool)
        ensures
            r == self.ids().contains(id@),
    {
        self.position(id).is_some()
    }
}

/// Whether this is the index of a first start: one default profile, which uses
/// the assistant's own directory.
pub open spec fn is_first_index(index: ProfileIndex, now: Seq<char>) -> bool {
    &&& index.version == 1
    &&& index.ids() == seq!["default"@]
    &&& index.profiles@[0].display_name@ == "Default"@
    &&& index.profiles@[0].created_at@ == now
    &&& index.profiles@[0].claude_config_dir is None
    &&& index.profiles@[0].icon is None
    &&& index.profiles@[0].color is None
    &&& index.last_used.deep_view() == Some("default"@)
    &&& index.default_profile@ == "default"@
}

/// The index of a first start.
pub fn bootstrap_default_profile(now: String) -> (r: ProfileIndex)
    ensures
        is_first_index(r, now@),
{
    let mut profiles: Vec<ProfileEntry> = Vec::new();
    profiles.push(
        ProfileEntry {
            id: "default".to_owned(),
            display_name: "Default".to_owned(),
            created_at: now,
            claude_config_dir: None,
            icon: None,
            color: None,
        },
    );
    let r: ProfileIndex = ProfileIndex {
        version: 1,
        profiles,
        last_used: Some("default".to_owned()),
        default_profile: "default".to_owned(),
    };
    assert(r.ids() == seq!["default"@]);
    r
}

/// All profiles; `None` where there is no index.
pub fn all_profiles(index: Option<ProfileIndex>) -> (r: Option<Vec<ProfileEntry>>)
    ensures
        r == (match index {
            Some(known) => Some(known.profiles),
            None => None,
        }),
{
    match index {
        Some(known) => Some(known.profiles),
        None => None,
    }
}

// ---------------------------------------------------------------------------
// Choosing a profile
// ---------------------------------------------------------------------------

/// One line per profile: its id in a column of twenty, and its name.
pub open spec fn choice_lines(profiles: Seq<ProfileEntry>) -> Seq<char>
    decreases profiles.len(),
{
    if profiles.len() == 0 {
        Seq::empty()
    } else {
        choice_lines(profiles.drop_last()) + "  "@ + pad_right_seq(profiles.last().id@, 20) + " "@
            + profiles.last().display_name@ + "\n"@
    }
}

/// What is told where it is unclear which profile to use.
pub open spec fn ambiguous_text(profiles: Seq<ProfileEntry>) -> Seq<char> {
    trim_end_seq(
        "Multiple profiles found. Specify one with --profile <id> or OKENA_PROFILE:\n"@
            + choice_lines(profiles),
    )
}

/// The profile to use where none was asked for: the only one, or the one that
/// was used last, where it still exists.
pub open spec fn picked(index: ProfileIndex) -> Result<Seq<char>, Seq<char>> {
    if index.profiles@.len() == 0 {
        Err("No profiles found. Run `okena --new-profile <name>` to create one."@)
    } else if index.profiles@.len() == 1 {
        Ok(index.profiles@[0].id@)
    } else {
        match index.last_used {
            Some(last) => if index.ids().contains(last@) {
                Ok(last@)
            } else {
                Err(ambiguous_text(index.profiles@))
            },
            None => Err(ambiguous_text(index.profiles@)),
        }
    }
}

/// A result with its texts as sequences.
pub open spec fn text_result(r: Result<String, String>) -> Result<Seq<char>, Seq<char>> {
    match r {
        Ok(text) => Ok(text@),
        Err(text) => Err(text@),
    }
}

fn ambiguous_message(profiles: &Vec<ProfileEntry>) -> (r: String)
    ensures
        r@ == ambiguous_text(profiles@),
{
    let mut lines: String = String::new();
    let mut i: usize = 0;
    while i < profiles.len()
        invariant
            i <= profiles@.len(),
            lines@ == choice_lines(profiles@.take(i as int)),
        decreases profiles@.len() - i,
    {
        assert(profiles@.take(i + 1).drop_last() == profiles@.take(i as int));
        lines.push_str("  ");
        lines.push_str(pad_right(profiles[i].id.as_str(), 20).as_str());
        lines.push_str(" ");
        lines.push_str(profiles[i].display_name.as_str());
        lines.push_str("\n");
        i = i + 1;
    }
    assert(profiles@.take(profiles@.len() as int) == profiles@);
    let message: String = concat(
        "Multiple profiles found. Specify one with --profile <id> or OKENA_PROFILE:\n",
        lines.as_str(),
    );
    trim_end(message.as_str())
}

/// The profile to use where none was asked for.
pub fn pick_profile_id(index: &ProfileIndex) -> (r: Result<String, String>)
    ensures
        text_result(r) == picked(*index),
{
    if index.profiles.len() == 0 {
        return Err(
            "No profiles found. Run `okena --new-profile <name>` to create one.".to_owned(),
        );
    }
    if index.profiles.len() == 1 {
        return Ok(index.profiles[0].id.clone());
    }
    if let Some(last) = &index.last_used {
        if index.contains(last.as_str()) {
            return Ok(last.clone());
        }
    }
    Err(ambiguous_message(&index.profiles))
}

/// What is told of a profile that does not exist.
pub open spec fn not_found_text(id: Seq<char>, ids: Seq<Seq<char>>) -> Seq<char> {
    "Profile '"@ + id + "' not found. Available: "@ + join_seq(ids, ", "@)
        + "\nRun `okena --new-profile <name>` to create one."@
}

/// The profile to start with: the one that was asked for, where it exists.
pub open spec fn chosen(index: ProfileIndex, requested: Option<Seq<char>>) -> Result<
    Seq<char>,
    Seq<char>,
> {
    match requested {
        Some(id) => if index.ids().contains(id) {
            Ok(id)
        } else {
            Err(not_found_text(id, index.ids()))
        },
        None => picked(index),
    }
}

fn copy_ids(index: &ProfileIndex) -> (r: Vec<String>)
    ensures
        r.deep_view() == index.ids(),
{
    let mut r: Vec<String> = Vec::new();
    let mut i: usize = 0;
    while i < index.profiles.len()
        invariant
            i <= index.profiles@.len(),
            r@.len() == i,
            forall|j: int| 0 <= j < i ==> (#[trigger] r@[j])@ == index.profiles@[j].id@,
        decreases index.profiles@.len() - i,
    {
        r.push(index.profiles[i].id.clone());
        i = i + 1;
    }
    assert(r.deep_view() == index.ids());
    r
}

/// Chooses the profile to start with.
pub fn choose_profile(index: &ProfileIndex, requested: Option<&str>) -> (r: Result<String, String>)
    ensures
        text_result(r) == chosen(*index, requested.deep_view()),
{
    let id: &str = match requested {
        Some(id) => id,
        None => return pick_profile_id(index),
    };
    if index.contains(id) {
        return Ok(id.to_owned());
    }
    let ids: Vec<String> = copy_ids(index);
    let n: usize = ids.len();
    assert(ids.deep_view().subrange(0, n as int) == ids.deep_view());
    let mut message: String = concat3("Profile '", id, "' not found. Available: ");
    message.push_str(join(&ids, 0, n, ", ").as_str());
    message.push_str("\nRun `okena --new-profile <name>` to create one.");
    Err(message)
}

/// Whether an id can name a directory of its own: it is not empty and leads
/// nowhere else.
pub open spec fn is_valid_id(id: Seq<char>) -> bool {
    id.len() > 0 && !id.contains('/') && !id.contains('\\') && find_from(id, ".."@, 0) < 0
        && !id.contains('\0')
}

/// Checks that an id can name a directory.
pub fn validate_profile_id(id: &str) -> (r: Result<(), String>)
    ensures
        match r {
            Ok(_) => is_valid_id(id@),
            Err(message) => !is_valid_id(id@) && message@ == "Invalid profile id: '"@ + id@ + "'"@,
        },
{
    let chars: Vec<char> = chars_of(id);
    let dots: Vec<char> = chars_of("..");
    if id.is_empty() || contains_char(id, '/') || contains_char(id, '\\') || find(
        &chars,
        &dots,
        0,
    ).is_some() || contains_char(id, '\0') {
        Err(concat3("Invalid profile id: '", id, "'"))
    } else {
        Ok(())
    }
}

/// The directory of a profile.
pub open spec fn profile_root(config_root: Seq<char>, id: Seq<char>) -> Seq<char> {
    join_path_seq(join_path_seq(config_root, "profiles"@), id)
}

/// Whether the paths are those of a profile.
pub open spec fn are_paths(paths: ProfilePaths, id: Seq<char>, config_root: Seq<char>) -> bool {
    &&& paths.id@ == id
    &&& paths.root@ == profile_root(config_root, id)
    &&& paths.config_root@ == config_root
}

/// Where a profile keeps its files.
pub fn make_profile_paths(id: &str, config_root: &str) -> (r: Result<ProfilePaths, String>)
    ensures
        match r {
            Ok(paths) => is_valid_id(id@) && are_paths(paths, id@, config_root@),
            Err(message) => !is_valid_id(id@) && message@ == "Invalid profile id: '"@ + id@ + "'"@,
        },
{
    match validate_profile_id(id) {
        Ok(_) => {
            let profiles: String = join_path(config_root, "profiles");
            Ok(
                ProfilePaths {
                    id: id.to_owned(),
                    root: join_path(profiles.as_str(), id),
                    config_root: config_root.to_owned(),
                },
            )
        },
        Err(message) => Err(message),
    }
}

/// The profile that was asked for: by a flag, or else by the environment.
pub open spec fn requested_profile(
    flag: Option<Seq<char>>,
    variable: Option<Seq<char>>,
) -> Option<Seq<char>> {
    match flag {
        Some(id) => Some(id),
        None => variable,
    }
}

/// Whether these are the paths of the profile `id`, or the reason why it has
/// none.
pub open spec fn are_paths_or_refusal(
    r: Result<ProfilePaths, String>,
    id: Seq<char>,
    config_root: Seq<char>,
) -> bool {
    if is_valid_id(id) {
        r matches Ok(paths) && are_paths(paths, id, config_root)
    } else {
        r matches Err(message) && message@ == "Invalid profile id: '"@ + id + "'"@
    }
}

/// Chooses the profile to start with, notes it as the last used one, and says
/// where it keeps its files. Where there is no index yet, one with the default
/// profile is made, and that profile is the one.
pub fn resolve_active_profile(
    index: &mut Option<ProfileIndex>,
    flag: Option<&str>,
    variable: Option<&str>,
    config_root: &str,
    now: String,
) -> (r: Result<ProfilePaths, String>)
    ensures
        match *old(index) {
            None => {
                &&& *final(index) matches Some(made)
                &&& is_first_index(made, now@)
                &&& r matches Ok(paths)
                &&& are_paths(paths, "default"@, config_root@)
            },
            Some(known) => match chosen(
                known,
                requested_profile(flag.deep_view(), variable.deep_view()),
            ) {
                Err(text) => {
                    &&& r matches Err(message)
                    &&& message@ == text
                    &&& *final(index) == Some(known)
                },
                Ok(id) => {
                    &&& *final(index) matches Some(noted)
                    &&& noted.last_used.deep_view() == Some(id)
                    &&& noted == (ProfileIndex { last_used: noted.last_used, ..known })
                    &&& are_paths_or_refusal(r, id, config_root@)
                },
            },
        },
{
    let mut known: Option<ProfileIndex> = None;
    std::mem::swap(&mut known, index);
    match known {
        None => {
            *index = Some(bootstrap_default_profile(now));
            proof {
                reveal_strlit("default");
                plain_is_valid("default"@);
            }
            make_profile_paths("default", config_root)
        },
        Some(entries) => {
            let mut entries: ProfileIndex = entries;
            let requested: Option<&str> = match flag {
                Some(id) => Some(id),
                None => variable,
            };
            let r: Result<ProfilePaths, String> = match choose_profile(&entries, requested) {
                Ok(id) => {
                    entries.set_last_used(id.as_str());
                    make_profile_paths(id.as_str(), config_root)
                },
                Err(message) => Err(message),
            };
            *index = Some(entries);
            r
        },
    }
}

// ---------------------------------------------------------------------------
// New profiles
// ---------------------------------------------------------------------------

/// A character of an id: letters and numbers as they are, a hyphen for any other.
pub open spec fn slug_char(c: char) -> char {
    if alphanumeric(c) {
        c
    } else {
        '-'
    }
}

/// `s` without the hyphens at its start.
pub open spec fn without_leading_hyphens(s: Seq<char>) -> Seq<char>
    decreases s.len(),
{
    if s.len() > 0 && s[0] == '-' {
        without_leading_hyphens(s.skip(1))
    } else {
        s
    }
}

/// `s` without the hyphens at its end.
pub open spec fn without_trailing_hyphens(s: Seq<char>) -> Seq<char>
    decreases s.len(),
{
    if s.len() > 0 && s.last() == '-' {
        without_trailing_hyphens(s.drop_last())
    } else {
        s
    }
}

/// The id that a name suggests.
pub open spec fn slug(name: Seq<char>) -> Seq<char> {
    let lower = lowercase(name);
    let mapped = Seq::new(lower.len(), |i: int| slug_char(lower[i]));
    let trimmed = without_trailing_hyphens(without_leading_hyphens(mapped));
    if trimmed.len() == 0 {
        "profile"@
    } else {
        trimmed
    }
}

/// A character that is harmless in a directory's name.
spec fn is_plain_char(c: char) -> bool {
    c != '/' && c != '\\' && c != '.' && c != '\0'
}

spec fn are_plain_chars(s: Seq<char>) -> bool {
    forall|i: int| 0 <= i < s.len() ==> is_plain_char(#[trigger] s[i])
}

fn slug_of(name: &str) -> (r: String)
    ensures
        r@ == slug(name@),
        r@.len() > 0,
        are_plain_chars(r@),
{
    let lower: String = to_lowercase(name);
    let chars: Vec<char> = chars_of(lower.as_str());
    let ghost model = Seq::new(chars@.len(), |i: int| slug_char(chars@[i]));
    let mut mapped: Vec<char> = Vec::new();
    let mut i: usize = 0;
    while i < chars.len()
        invariant
            i <= chars@.len(),
            mapped@.len() == i,
            forall|j: int|
                0 <= j < i ==> (#[trigger] mapped@[j]) == slug_char(chars@[j]) && is_plain_char(
                    mapped@[j],
                ),
        decreases chars@.len() - i,
    {
        mapped.push(
            if is_alphanumeric(chars[i]) {
                chars[i]
            } else {
                '-'
            },
        );
        i = i + 1;
    }
    assert(mapped@ == model);
    let n: usize = mapped.len();
    let mut from: usize = 0;
    assert(mapped@.skip(0) == mapped@);
    while from < n && mapped[from] == '-'
        invariant
            from <= n == mapped@.len(),
            without_leading_hyphens(mapped@.skip(from as int)) == without_leading_hyphens(mapped@),
        ensures
            from <= n,
            mapped@.skip(from as int) == without_leading_hyphens(mapped@),
        decreases n - from,
    {
        assert(mapped@.skip(from as int).skip(1) == mapped@.skip(from + 1));
        from = from + 1;
    }
    let mut to: usize = n;
    let ghost front = mapped@.skip(from as int);
    assert(mapped@.subrange(from as int, n as int) == front);
    while from < to && mapped[to - 1] == '-'
        invariant
            from <= to <= n == mapped@.len(),
            without_trailing_hyphens(mapped@.subrange(from as int, to as int))
                == without_trailing_hyphens(front),
        ensures
            from <= to <= n,
            mapped@.subrange(from as int, to as int) == without_trailing_hyphens(front),
        decreases to - from,
    {
        assert(mapped@.subrange(from as int, to as int).drop_last() == mapped@.subrange(
            from as int,
            to - 1,
        ));
        to = to - 1;
    }
    if from == to {
        proof {
            reveal_strlit("profile");
        }
        return "profile".to_owned();
    }
    string_of(&mapped, from, to)
}

/// An id with a number behind it.
pub open spec fn numbered(slug: Seq<char>, n: nat) -> Seq<char> {
    slug + "-"@ + decimal(n)
}

/// Whether an id is the one that a new profile gets: its slug where that is
/// free, otherwise the slug with the least number from 2 on that makes it so.
pub open spec fn is_unique_id(id: Seq<char>, slug: Seq<char>, taken: Seq<Seq<char>>) -> bool {
    if !taken.contains(slug) {
        id == slug
    } else {
        exists|n: nat| #[trigger] is_first_free(id, slug, taken, n)
    }
}

/// Whether `n` is the least number from 2 on with which a slug is free.
pub open spec fn is_first_free(
    id: Seq<char>,
    slug: Seq<char>,
    taken: Seq<Seq<char>>,
    n: nat,
) -> bool {
    &&& n >= 2
    &&& id == numbered(slug, n)
    &&& !taken.contains(id)
    &&& forall|m: nat| 2 <= m < n ==> taken.contains(#[trigger] numbered(slug, m))
}

proof fn numbered_differ(slug: Seq<char>, a: nat, b: nat)
    requires
        numbered(slug, a) == numbered(slug, b),
    ensures
        a == b,
{
    let max = if a < b {
        b
    } else {
        a
    };
    let start = (slug + "-"@).len() as int;
    assert(numbered(slug, a).skip(start) == decimal(a));
    assert(numbered(slug, b).skip(start) == decimal(b));
    decimal_reads_back(a, max);
    decimal_reads_back(b, max);
}

/// As many numbers as are taken, at most.
proof fn taken_numbers_are_few(slug: Seq<char>, taken: Seq<Seq<char>>, n: nat)
    requires
        n >= 2,
        forall|m: nat| 2 <= m < n ==> taken.contains(#[trigger] numbered(slug, m)),
    ensures
        n - 2 <= taken.len(),
{
    let numbers = Seq::new((n - 2) as nat, |i: int| numbered(slug, (i + 2) as nat));
    assert forall|i: int, j: int|
        0 <= i < numbers.len() && 0 <= j < numbers.len() && i != j implies numbers[i]
        != numbers[j] by {
        if numbers[i] == numbers[j] {
            numbered_differ(slug, (i + 2) as nat, (j + 2) as nat);
        }
    }
    numbers.unique_seq_to_set();
    taken.lemma_cardinality_of_set();
    assert(numbers.to_set().subset_of(taken.to_set())) by {
        assert forall|x: Seq<char>| numbers.to_set().contains(x) implies taken.to_set().contains(
            x,
        ) by {
            let i = choose|i: int| 0 <= i < numbers.len() && numbers[i] == x;
            assert(taken.contains(numbered(slug, (i + 2) as nat)));
        }
    }
    vstd::set_lib::lemma_len_subset(numbers.to_set(), taken.to_set());
}

proof fn plain_is_valid(s: Seq<char>)
    requires
        s.len() > 0,
        are_plain_chars(s),
    ensures
        is_valid_id(s),
{
    reveal_strlit("..");
    crate::text::find_from_is_first(s, ".."@, 0);
    if find_from(s, ".."@, 0) >= 0 {
        let at = find_from(s, ".."@, 0);
        assert(s.subrange(at, at + 2)[0] == '.');
        assert(is_plain_char(s[at]));
    }
    assert forall|c: char| #[trigger] s.contains(c) implies is_plain_char(c) by {
        let i = choose|i: int| 0 <= i < s.len() && s[i] == c;
        assert(is_plain_char(s[i]));
    }
}

proof fn numbered_is_plain(slug: Seq<char>, n: nat)
    requires
        are_plain_chars(slug),
    ensures
        are_plain_chars(numbered(slug, n)),
{
    reveal_strlit("-");
    decimal_reads_back(n, n);
    let whole = numbered(slug, n);
    let start = slug.len() as int;
    assert forall|i: int| 0 <= i < whole.len() implies is_plain_char(#[trigger] whole[i]) by {
        if i < start {
            assert(whole[i] == slug[i]);
        } else if i > start {
            let digits = decimal(n);
            assert(whole[i] == digits[i - start - 1]);
            let unsigned = crate::text::unsigned_digits(digits);
            if digits[0] == '+' {
                assert(i == start + 1 || unsigned[i - start - 2] == digits[i - start - 1]);
            }
            assert(crate::text::is_digit(digits[i - start - 1]) || digits[i - start - 1] == '+');
        }
    }
}

/// The id of a new profile: no profile has it yet, and it can name a directory.
pub fn unique_id(display_name: &str, index: &ProfileIndex) -> (r: String)
    requires
        index.profiles@.len() < u32::MAX - 2,
    ensures
        is_unique_id(r@, slug(display_name@), index.ids()),
        !index.ids().contains(r@),
        is_valid_id(r@),
{
    let base: String = slug_of(display_name);
    let ghost taken = index.ids();
    if !index.contains(base.as_str()) {
        proof {
            plain_is_valid(base@);
        }
        return base;
    }
    let mut n: u32 = 2;
    loop
        invariant
            2 <= n,
            n - 2 <= taken.len() < u32::MAX - 2,
            taken == index.ids(),
            base@ == slug(display_name@),
            are_plain_chars(base@),
            base@.len() > 0,
            taken.contains(base@),
            forall|m: nat| 2 <= m < n ==> taken.contains(#[trigger] numbered(base@, m)),
        decreases taken.len() + 2 - n,
    {
        let mut candidate: String = concat(base.as_str(), "-");
        candidate.push_str(decimal_string(n as u64).as_str());
        assert(candidate@ == numbered(base@, n as nat));
        if !index.contains(candidate.as_str()) {
            proof {
                numbered_is_plain(base@, n as nat);
                plain_is_valid(candidate@);
                assert(is_first_free(candidate@, base@, taken, n as nat));
            }
            return candidate;
        }
        proof {
            taken_numbers_are_few(base@, taken, (n + 1) as nat);
        }
        n = n + 1;
    }
}

/// Adds a profile to the index, and hands out its id and the directory that the
/// assistant gets for it.
pub fn create_profile(
    index: &mut ProfileIndex,
    display_name: &str,
    home: Option<&str>,
    names: &AssistantNames,
    now: String,
) -> (r: (String, String))
    requires
        old(index).profiles@.len() < u32::MAX - 2,
    ensures
        is_unique_id(r.0@, slug(display_name@), old(index).ids()),
        !old(index).ids().contains(r.0@),
        is_valid_id(r.0@),
        r.1@ == join_path_seq(
            match home.deep_view() {
                Some(dir) => dir,
                None => ""@,
            },
            names.dir_name@ + "-"@ + r.0@,
        ),
        *final(index) == (ProfileIndex { profiles: final(index).profiles, ..*old(index) }),
        ({
            let entry = final(index).profiles@.last();
            &&& final(index).profiles@ == old(index).profiles@.push(entry)
            &&& entry.id@ == r.0@
            &&& entry.display_name@ == display_name@
            &&& entry.created_at@ == now@
            &&& entry.claude_config_dir.deep_view() == Some(r.1@)
            &&& entry.icon is None
            &&& entry.color is None
        }),
{
    let id: String = unique_id(display_name, index);
    let name: String = concat3(names.dir_name.as_str(), "-", id.as_str());
    let claude_dir: String = join_path(
        match home {
            Some(dir) => dir,
            None => "",
        },
        name.as_str(),
    );
    index.profiles.push(
        ProfileEntry {
            id: id.clone(),
            display_name: display_name.to_owned(),
            created_at: now,
            claude_config_dir: Some(claude_dir.clone()),
            icon: None,
            color: None,
        },
    );
    (id, claude_dir)
}

/// Whether these are the settings that a new profile begins with: a directory of
/// its own for the assistant.
pub open spec fn are_first_settings(
    settings: Json,
    claude_dir: Seq<char>,
    extension_name: Seq<char>,
) -> bool {
    &&& settings.field("version"@) matches Some(version)
    &&& has_shape(version, Shape::Number(3))
    &&& settings.field("extension_settings"@) matches Some(extensions)
    &&& extensions.field(extension_name) matches Some(extension)
    &&& extension.field_text("config_dir"@) == Some(claude_dir)
    &&& forall|k: Seq<char>|
        k != "version"@ && k != "extension_settings"@ ==> #[trigger] settings.field(k) is None
    &&& forall|k: Seq<char>| k != extension_name ==> #[trigger] extensions.field(k) is None
    &&& forall|k: Seq<char>| k != "config_dir"@ ==> #[trigger] extension.field(k) is None
}

/// The settings that a new profile begins with.
pub fn first_settings(claude_dir: &str, names: &AssistantNames) -> (r: Json)
    ensures
        are_first_settings(r, claude_dir@, names.extension@),
{
    let extension: Json = Json::Object(Vec::new()).set("config_dir", text_json(claude_dir));
    let extensions: Json = Json::Object(Vec::new()).set(names.extension.as_str(), extension);
    proof {
        reveal_strlit("version");
        reveal_strlit("extension_settings");
    }
    assert("version"@.len() != "extension_settings"@.len());
    Json::Object(Vec::new()).set("version", number_json(3)).set("extension_settings", extensions)
}

// ---------------------------------------------------------------------------
// Deleting a profile
// ---------------------------------------------------------------------------

/// The profiles without those that have an id.
pub open spec fn without_id(profiles: Seq<ProfileEntry>, id: Seq<char>) -> Seq<ProfileEntry>
    decreases profiles.len(),
{
    if profiles.len() == 0 {
        Seq::empty()
    } else {
        let before = without_id(profiles.drop_last(), id);
        if profiles.last().id@ == id {
            before
        } else {
            before.push(profiles.last())
        }
    }
}

/// Why a profile may not be deleted. `running` says whether an okena runs with
/// it.
pub open spec fn delete_refusal(
    index: ProfileIndex,
    id: Seq<char>,
    active: Option<Seq<char>>,
    running: bool,
) -> Option<Seq<char>> {
    if !index.ids().contains(id) {
        Some("Profile '"@ + id + "' does not exist"@)
    } else if id == index.default_profile@ {
        Some("Cannot delete the default profile"@)
    } else if active == Some(id) {
        Some("Cannot delete the active profile \u{2014} switch to another profile first"@)
    } else if !is_valid_id(id) {
        Some("Invalid profile id: '"@ + id + "'"@)
    } else if running {
        Some("Profile '"@ + id + "' is currently in use by another Okena instance"@)
    } else {
        None
    }
}

fn remove_entries(index: &mut ProfileIndex, id: &str)
    ensures
        final(index).profiles@ == without_id(old(index).profiles@, id@),
        *final(index) == (ProfileIndex { profiles: final(index).profiles, ..*old(index) }),
{
    let mut rest: Vec<ProfileEntry> = Vec::new();
    std::mem::swap(&mut rest, &mut index.profiles);
    let ghost all = rest@;
    while rest.len() > 0
        invariant
            rest@.len() <= all.len(),
            rest@ == all.take(rest@.len() as int),
            without_id(all, id@) == without_id(rest@, id@) + index.profiles@,
            *index == (ProfileIndex { profiles: index.profiles, ..*old(index) }),
        decreases rest@.len(),
    {
        let ghost before = rest@;
        let ghost kept = index.profiles@;
        match rest.pop() {
            Some(entry) => {
                if !same(entry.id.as_str(), id) {
                    index.profiles.insert(0, entry);
                    assert(without_id(before, id@) + kept == without_id(rest@, id@)
                        + index.profiles@);
                }
            },
            None => {},
        }
    }
    assert(without_id(all, id@) == index.profiles@);
}

/// Deletes a profile from the index, and says which directory goes with it.
/// The default profile, the active one and one in use stay.
pub fn delete_profile(
    index: &mut ProfileIndex,
    id: &str,
    active: Option<&str>,
    running: bool,
    config_root: &str,
) -> (r: Result<ProfilePaths, String>)
    ensures
        match delete_refusal(*old(index), id@, active.deep_view(), running) {
            Some(text) => {
                &&& r matches Err(message)
                &&& message@ == text
                &&& *final(index) == *old(index)
            },
            None => {
                &&& r matches Ok(paths)
                &&& are_paths(paths, id@, config_root@)
                &&& final(index).profiles@ == without_id(old(index).profiles@, id@)
                &&& *final(index) == (ProfileIndex {
                    profiles: final(index).profiles,
                    last_used: if old(index).last_used.deep_view() == Some(id@) {
                        None
                    } else {
                        old(index).last_used
                    },
                    ..*old(index)
                })
            },
        },
{
    if !index.contains(id) {
        return Err(concat3("Profile '", id, "' does not exist"));
    }
    if same(id, index.default_profile.as_str()) {
        return Err("Cannot delete the default profile".to_owned());
    }
    if let Some(current) = active {
        if same(current, id) {
            return Err(
                "Cannot delete the active profile \u{2014} switch to another profile first".to_owned(),
            );
        }
    }
    let paths: ProfilePaths = match make_profile_paths(id, config_root) {
        Ok(paths) => paths,
        Err(message) => return Err(message),
    };
    if running {
        return Err(concat3("Profile '", id, "' is currently in use by another Okena instance"));
    }
    remove_entries(index, id);
    let was_last: bool = match &index.last_used {
        Some(last) => same(last.as_str(), id),
        None => false,
    };
    if was_last {
        index.last_used = None;
    }
    Ok(paths)
}

/// The process that a profile's `remote.json` names, as 32 bits hold it.
pub open spec fn pid_of(remote: Json) -> u32 {
    match remote.field("pid"@) {
        Some(value) => match value.unsigned() {
            Some(n) => (n % 0x1_0000_0000) as u32,
            None => 0,
        },
        None => 0,
    }
}

/// The process that a document names.
pub fn remote_pid(remote: &Json) -> (r: u32)
    ensures
        r == pid_of(*remote),
{
    match remote.get("pid") {
        Some(value) => match value.as_u64() {
            Some(n) => (n % 0x1_0000_0000) as u32,
            None => 0,
        },
        None => 0,
    }
}

/// The process that would have to be alive for a profile to be in use: the one
/// that its `remote.json` names, where that can be read.
pub fn profile_pid(remote: Option<&str>) -> (r: Option<u32>)
    ensures
        r == (match remote.deep_view() {
            Some(text) => match json_text(text) {
                Some(document) => if pid_of(document) != 0 {
                    Some(pid_of(document))
                } else {
                    None
                },
                None => None,
            },
            None => None,
        }),
{
    let document: Json = match remote {
        Some(text) => match parse_json(text) {
            Some(document) => document,
            None => return None,
        },
        None => return None,
    };
    let pid: u32 = remote_pid(&document);
    if pid != 0 {
        Some(pid)
    } else {
        None
    }
}

/// A profile in the list that is printed: the last used one is marked.
pub open spec fn list_line(entry: ProfileEntry, last_used: Option<Seq<char>>) -> Seq<char> {
    (if last_used == Some(entry.id@) {
        "*"@
    } else {
        " "@
    }) + " "@ + pad_right_seq(entry.id@, 20) + " "@ + entry.display_name@
}

/// The lines of the list of profiles.
pub fn list_profiles(index: &ProfileIndex) -> (r: Vec<String>)
    ensures
        r@.len() == index.profiles@.len(),
        forall|i: int|
            0 <= i < r@.len() ==> (#[trigger] r@[i])@ == list_line(
                index.profiles@[i],
                index.last_used.deep_view(),
            ),
{
    let mut r: Vec<String> = Vec::new();
    let mut i: usize = 0;
    while i < index.profiles.len()
        invariant
            i <= index.profiles@.len(),
            r@.len() == i,
            forall|j: int|
                0 <= j < i ==> (#[trigger] r@[j])@ == list_line(
                    index.profiles@[j],
                    index.last_used.deep_view(),
                ),
        decreases index.profiles@.len() - i,
    {
        let entry: &ProfileEntry = &index.profiles[i];
        let marked: bool = match &index.last_used {
            Some(last) => same(last.as_str(), entry.id.as_str()),
            None => false,
        };
        let mut line: String = concat3(
            if marked {
                "*"
            } else {
                " "
            },
            " ",
            pad_right(entry.id.as_str(), 20).as_str(),
        );
        line.push_str(" ");
        line.push_str(entry.display_name.as_str());
        r.push(line);
        i = i + 1;
    }
    r
}

// ---------------------------------------------------------------------------
// From the layout without profiles
// ---------------------------------------------------------------------------

/// The process that a lock names.
pub open spec fn lock_pid_of(content: Seq<char>) -> Option<nat> {
    parse_unsigned_seq(trim_seq(content), u32::MAX as nat)
}

/// The process that a lock names.
pub fn legacy_lock_pid(content: &str) -> (r: Option<u32>)
    ensures
        match r {
            Some(pid) => lock_pid_of(content@) == Some(pid as nat),
            None => lock_pid_of(content@) is None,
        },
{
    match parse_unsigned(trim(content).as_str(), u32::MAX as u64) {
        Some(pid) => Some(pid as u32),
        None => None,
    }
}

/// The lock of the layout without profiles.
#[derive(Clone, Copy, Debug, PartialEq, Eq, Structural)]
pub enum LegacyLock {
    /// There is none.
    Missing,
    /// It names no process that is alive.
    Stale,
    /// It names a process that is alive.
    Held(u32),
}

/// A file or directory that moves into the profile.
#[derive(Clone, Debug, PartialEq, Eq)]
pub struct Move {
    pub from: String,
    pub to: String,
    /// Whether only the user may read it.
    pub sensitive: bool,
}

/// A [`Move`] with its paths as sequences.
pub struct MoveModel {
    pub from: Seq<char>,
    pub to: Seq<char>,
    pub sensitive: bool,
}

impl DeepView for Move {
    type V = MoveModel;

    open spec fn deep_view(&self) -> MoveModel {
        MoveModel { from: self.from@, to: self.to@, sensitive: self.sensitive }
    }
}

/// What is to be done with the layout without profiles.
#[derive(Clone, Debug, PartialEq, Eq)]
pub enum Migration {
    /// Nothing.
    NotNeeded,
    /// Nothing, for a reason that the user is told.
    Refused(String),
    /// Remove the lock where it is stale, move what is there, and leave a mark.
    Proceed { remove_lock: Option<String>, moves: Vec<Move>, mark: String },
}

/// What the layout without profiles may hold, and whether it is sensitive.
pub open spec fn legacy_names() -> Seq<(Seq<char>, bool)> {
    seq![
        ("workspace.json"@, false),
        ("workspace.json.bak"@, false),
        ("settings.json"@, false),
        ("keybindings.json"@, false),
        ("cli.json"@, false),
        ("remote.json"@, false),
        ("remote_secret"@, true),
        ("remote_tokens.json"@, true),
        ("pair_code"@, true),
        ("okena.log"@, false),
        ("okena.log.1"@, false),
        ("sessions"@, false),
        ("themes"@, false),
        ("updates"@, false),
    ]
}

/// What the layout without profiles may hold.
pub fn legacy_name_list() -> (r: Vec<(String, bool)>)
    ensures
        r.deep_view() == legacy_names(),
{
    let mut r: Vec<(String, bool)> = Vec::new();
    r.push(("workspace.json".to_owned(), false));
    r.push(("workspace.json.bak".to_owned(), false));
    r.push(("settings.json".to_owned(), false));
    r.push(("keybindings.json".to_owned(), false));
    r.push(("cli.json".to_owned(), false));
    r.push(("remote.json".to_owned(), false));
    r.push(("remote_secret".to_owned(), true));
    r.push(("remote_tokens.json".to_owned(), true));
    r.push(("pair_code".to_owned(), true));
    r.push(("okena.log".to_owned(), false));
    r.push(("okena.log.1".to_owned(), false));
    r.push(("sessions".to_owned(), false));
    r.push(("themes".to_owned(), false));
    r.push(("updates".to_owned(), false));
    assert(r.deep_view() == legacy_names());
    r
}

/// The moves of those names that are present.
pub open spec fn moves_of(
    names: Seq<(Seq<char>, bool)>,
    present: Seq<Seq<char>>,
    config_root: Seq<char>,
    root: Seq<char>,
) -> Seq<MoveModel>
    decreases names.len(),
{
    if names.len() == 0 {
        Seq::empty()
    } else {
        let before = moves_of(names.drop_last(), present, config_root, root);
        let (name, sensitive) = names.last();
        if present.contains(name) {
            before.push(
                MoveModel {
                    from: join_path_seq(config_root, name),
                    to: join_path_seq(root, name),
                    sensitive,
                },
            )
        } else {
            before
        }
    }
}

fn is_present(present: &Vec<String>, name: &str) -> (r: bool)
    ensures
        r == present.deep_view().contains(name@),
{
    let ghost model = present.deep_view();
    let mut i: usize = 0;
    while i < present.len()
        invariant
            i <= present@.len(),
            model == present.deep_view(),
            forall|j: int| 0 <= j < i ==> model[j] != name@,
        decreases present@.len() - i,
    {
        assert(model[i as int] == present@[i as int]@);
        if same(present[i].as_str(), name) {
            return true;
        }
        i = i + 1;
    }
    false
}

fn moves_for(paths: &ProfilePaths, present: &Vec<String>) -> (r: Vec<Move>)
    ensures
        r.deep_view() == moves_of(
            legacy_names(),
            present.deep_view(),
            paths.config_root@,
            paths.root@,
        ),
{
    let names: Vec<(String, bool)> = legacy_name_list();
    let ghost model = names.deep_view();
    let ghost there = present.deep_view();
    let mut r: Vec<Move> = Vec::new();
    let mut i: usize = 0;
    assert(r.deep_view() == moves_of(model.take(0), there, paths.config_root@, paths.root@));
    while i < names.len()
        invariant
            i <= names@.len(),
            model == names.deep_view(),
            there == present.deep_view(),
            r.deep_view() == moves_of(
                model.take(i as int),
                there,
                paths.config_root@,
                paths.root@,
            ),
        decreases names@.len() - i,
    {
        assert(model.take(i + 1).drop_last() == model.take(i as int));
        assert(model.take(i + 1).last() == (names@[i as int].0@, names@[i as int].1));
        let name: &str = names[i].0.as_str();
        if is_present(present, name) {
            let step: Move = Move {
                from: join_path(paths.config_root.as_str(), name),
                to: join_path(paths.root.as_str(), name),
                sensitive: names[i].1,
            };
            let ghost entry = step.deep_view();
            let ghost before = r.deep_view();
            r.push(step);
            assert(r.deep_view() == before.push(entry));
        }
        i = i + 1;
    }
    assert(model.take(model.len() as int) == model);
    r
}

/// What is to be done with the layout without profiles: only the default profile
/// takes it over, once, and not while an instance uses it. `marked` says whether
/// the profile has the mark already, and `present` names what is there.
pub fn migrate_legacy_layout_if_needed(
    paths: &ProfilePaths,
    marked: bool,
    lock: LegacyLock,
    present: &Vec<String>,
) -> (r: Migration)
    ensures
        if paths.id@ != "default"@ || marked {
            r is NotNeeded
        } else {
            match lock {
                LegacyLock::Held(pid) => {
                    &&& r matches Migration::Refused(message)
                    &&& message@ == "An older Okena instance is still running (PID "@ + decimal(
                        pid as nat,
                    ) + "). Quit it before upgrading to profiles."@
                },
                _ => {
                    &&& r matches Migration::Proceed { remove_lock, moves, mark }
                    &&& remove_lock.deep_view() == (if lock == LegacyLock::Stale {
                        Some(join_path_seq(paths.config_root@, "okena.lock"@))
                    } else {
                        None
                    })
                    &&& moves.deep_view() == moves_of(
                        legacy_names(),
                        present.deep_view(),
                        paths.config_root@,
                        paths.root@,
                    )
                    &&& mark@ == join_path_seq(paths.root@, ".migrated_from_legacy_v1"@)
                },
            }
        },
{
    if !same(paths.id.as_str(), "default") || marked {
        return Migration::NotNeeded;
    }
    let remove_lock: Option<String> = match lock {
        LegacyLock::Held(pid) => {
            let mut message: String = concat(
                "An older Okena instance is still running (PID ",
                decimal_string(pid as u64).as_str(),
            );
            message.push_str("). Quit it before upgrading to profiles.");
            return Migration::Refused(message);
        },
        LegacyLock::Stale => Some(join_path(paths.config_root.as_str(), "okena.lock")),
        LegacyLock::Missing => None,
    };
    Migration::Proceed {
        remove_lock,
        moves: moves_for(paths, present),
        mark: join_path(paths.root.as_str(), ".migrated_from_legacy_v1"),
    }
}

// ---------------------------------------------------------------------------
// Laws
// ---------------------------------------------------------------------------

/// Deleting takes every profile with the id and no other, and never the default
/// one.
pub proof fn deletion_takes_just_the_profile(
    index: ProfileIndex,
    id: Seq<char>,
    active: Option<Seq<char>>,
    running: bool,
    entry: ProfileEntry,
)
    requires
        delete_refusal(index, id, active, running) is None,
    ensures
        without_id(index.profiles@, id).contains(entry) <==> (index.profiles@.contains(entry)
            && entry.id@ != id),
        index.profiles@.contains(entry) && entry.id@ == index.default_profile@ ==> without_id(
            index.profiles@,
            id,
        ).contains(entry),
{
    without_id_members(index.profiles@, id, entry);
}

proof fn without_id_members(profiles: Seq<ProfileEntry>, id: Seq<char>, entry: ProfileEntry)
    ensures
        without_id(profiles, id).contains(entry) <==> (profiles.contains(entry) && entry.id@ != id),
    decreases profiles.len(),
{
    if profiles.len() > 0 {
        let front = profiles.drop_last();
        without_id_members(front, id, entry);
        let kept = without_id(front, id);
        assert(profiles == front.push(profiles.last()));
        assert(profiles.contains(entry) <==> front.contains(entry) || entry == profiles.last()) by {
            if front.contains(entry) {
                let i = choose|i: int| 0 <= i < front.len() && front[i] == entry;
                assert(profiles[i] == entry);
            }
            if entry == profiles.last() {
                assert(profiles[profiles.len() - 1] == entry);
            }
        }
        let last = kept.push(profiles.last());
        assert(last.contains(entry) <==> kept.contains(entry) || entry == profiles.last()) by {
            if kept.contains(entry) {
                let i = choose|i: int| 0 <= i < kept.len() && kept[i] == entry;
                assert(last[i] == entry);
            }
            if entry == profiles.last() {
                assert(last[kept.len() as int] == entry);
            }
        }
    }
}

/// Whatever profile is chosen exists.
pub proof fn chosen_profile_exists(index: ProfileIndex, requested: Option<Seq<char>>)
    ensures
        chosen(index, requested) matches Ok(id) ==> index.ids().contains(id),
{
    if requested is None && index.profiles@.len() == 1 {
        assert(index.ids()[0] == index.profiles@[0].id@);
    }
}

/// No two profiles share an id: creating one and deleting one keep it so.
pub proof fn ids_stay_distinct(before: ProfileIndex, after: ProfileIndex, id: Seq<char>)
    requires
        before.ids().no_duplicates(),
        ({
            ||| !before.ids().contains(id) && after.ids() == before.ids().push(id)
            ||| after.profiles@ == without_id(before.profiles@, id)
        }),
    ensures
        after.ids().no_duplicates(),
{
    if after.profiles@ == without_id(before.profiles@, id) {
        without_id_is_distinct(before.profiles@, id);
        assert forall|i: int, j: int| 0 <= i < j < after.ids().len() implies after.ids()[i]
            != after.ids()[j] by {
            assert(after.profiles@[i].id@ != after.profiles@[j].id@);
        }
    }
}

proof fn without_id_is_distinct(profiles: Seq<ProfileEntry>, id: Seq<char>)
    requires
        Seq::new(profiles.len(), |i: int| profiles[i].id@).no_duplicates(),
    ensures
        forall|i: int, j: int|
            0 <= i < j < without_id(profiles, id).len() ==> (#[trigger] without_id(
                profiles,
                id,
            )[i]).id@ != (#[trigger] without_id(profiles, id)[j]).id@,
    decreases profiles.len(),
{
    if profiles.len() > 0 {
        let ids = Seq::new(profiles.len(), |i: int| profiles[i].id@);
        let front = profiles.drop_last();
        let front_ids = Seq::new(front.len(), |i: int| front[i].id@);
        assert forall|i: int, j: int|
            0 <= i < front_ids.len() && 0 <= j < front_ids.len() && i != j implies front_ids[i]
            != front_ids[j] by {
            assert(ids[i] == front_ids[i] && ids[j] == front_ids[j]);
        }
        without_id_is_distinct(front, id);
        let kept = without_id(front, id);
        assert forall|i: int| 0 <= i < kept.len() implies (#[trigger] kept[i]).id@
            != profiles.last().id@ by {
            without_id_members(front, id, kept[i]);
            assert(kept.contains(kept[i]));
            let k = choose|k: int| 0 <= k < front.len() && front[k] == kept[i];
            assert(ids[k] == kept[i].id@);
            assert(ids[profiles.len() - 1] == profiles.last().id@);
        }
    }
}

/// A profile that was asked for and exists is the one chosen, whichever was used
/// last; one that does not exist is refused. The flag outweighs the environment.
pub proof fn asked_profiles_are_chosen(
    index: ProfileIndex,
    flag: Seq<char>,
    variable: Option<Seq<char>>,
)
    ensures
        index.ids().contains(flag) ==> chosen(index, requested_profile(Some(flag), variable))
            == Ok::<Seq<char>, Seq<char>>(flag),
        !index.ids().contains(flag) ==> chosen(index, requested_profile(Some(flag), variable)) is
            Err,
        requested_profile(None, variable) == variable,
{
}

/// Where none was asked for, the only profile is chosen, or of several the one that
/// was used last; without such a one nothing is guessed.
pub proof fn last_used_profile_is_chosen(index: ProfileIndex)
    ensures
        index.profiles@.len() == 0 ==> chosen(index, None) is Err,
        index.profiles@.len() == 1 ==> chosen(index, None) == Ok::<Seq<char>, Seq<char>>(
            index.profiles@[0].id@,
        ),
        index.profiles@.len() > 1 ==> {
            &&& chosen(index, None) is Ok <==> (index.last_used matches Some(last)
                && index.ids().contains(last@))
            &&& chosen(index, None) matches Ok(id) ==> index.last_used is Some && id
                == index.last_used->0@
        },
{
}

/// A profile can be deleted just where it exists and is neither the default one nor
/// the active one nor in use, under an id that is a name.
pub proof fn profiles_in_use_are_kept(
    index: ProfileIndex,
    id: Seq<char>,
    active: Option<Seq<char>>,
    running: bool,
)
    ensures
        delete_refusal(index, id, active, running) is None <==> index.ids().contains(id) && id
            != index.default_profile@ && active != Some(id) && is_valid_id(id) && !running,
{
}

/// Different profiles have different directories, each below the directory of all
/// profiles.
pub proof fn profiles_have_their_own_directories(
    config_root: Seq<char>,
    a: Seq<char>,
    b: Seq<char>,
)
    requires
        is_valid_id(a),
        is_valid_id(b),
    ensures
        profile_root(config_root, a) == profile_root(config_root, b) ==> a == b,
        profile_root(config_root, a) == join_path_seq(config_root, "profiles"@) + "/"@ + a,
{
    reveal_strlit("/");
    reveal_strlit("profiles");
    assert("/"@.len() == 1 && "/"@[0] == '/');
    let base = join_path_seq(config_root, "profiles"@);
    no_leading_slash(a);
    no_leading_slash(b);
    assert("profiles"@.len() == 8 && "profiles"@[7] == 's');
    assert("profiles"@[0] == 'p');
    assert(!"/"@.is_prefix_of("profiles"@)) by {
        if "/"@.is_prefix_of("profiles"@) {
            assert("/"@[0] == "profiles"@.subrange(0, 1)[0]);
        }
    }
    assert(base.last() == 's');
    assert(!"/"@.is_suffix_of(base)) by {
        if "/"@.is_suffix_of(base) {
            assert(base.subrange(base.len() - 1, base.len() as int)[0] == "/"@[0]);
        }
    }
    assert((base + "/"@ + a).skip(base.len() as int + 1) == a);
    assert((base + "/"@ + b).skip(base.len() as int + 1) == b);
}

proof fn no_leading_slash(id: Seq<char>)
    requires
        !id.contains('/'),
    ensures
        !"/"@.is_prefix_of(id),
{
    reveal_strlit("/");
    if "/"@.is_prefix_of(id) {
        assert(id.subrange(0, 1)[0] == "/"@[0]);
        assert(id[0] == '/');
    }
}

/// An id leads nowhere but into its own directory: it has no separator and is no way
/// up.
pub proof fn valid_ids_are_names(id: Seq<char>, i: int)
    requires
        is_valid_id(id),
    ensures
        id.len() > 0,
        0 <= i < id.len() ==> id[i] != '/' && id[i] != '\\' && id[i] != '\0',
        !occurs_at(id, ".."@, i),
{
    if 0 <= i < id.len() {
        assert(id.contains(id[i]));
    }
    find_from_is_first(id, ".."@, 0);
}

proof fn present_file_is_moved(
    names: Seq<(Seq<char>, bool)>,
    present: Seq<Seq<char>>,
    config_root: Seq<char>,
    root: Seq<char>,
    i: int,
) -> (k: int)
    requires
        0 <= i < names.len(),
        present.contains(names[i].0),
    ensures
        0 <= k < moves_of(names, present, config_root, root).len(),
        moves_of(names, present, config_root, root)[k] == (MoveModel {
            from: join_path_seq(config_root, names[i].0),
            to: join_path_seq(root, names[i].0),
            sensitive: names[i].1,
        }),
    decreases names.len(),
{
    if i < names.len() - 1 {
        assert(names.drop_last()[i] == names[i]);
        present_file_is_moved(names.drop_last(), present, config_root, root, i)
    } else {
        moves_of(names, present, config_root, root).len() - 1
    }
}

/// Every old file that is there moves into the profile under its own name, and every
/// secret one as a secret.
pub proof fn old_files_are_moved(
    present: Seq<Seq<char>>,
    config_root: Seq<char>,
    root: Seq<char>,
    i: int,
)
    requires
        0 <= i < legacy_names().len(),
        present.contains(legacy_names()[i].0),
    ensures
        moves_of(legacy_names(), present, config_root, root).contains(
            MoveModel {
                from: join_path_seq(config_root, legacy_names()[i].0),
                to: join_path_seq(root, legacy_names()[i].0),
                sensitive: legacy_names()[i].1,
            },
        ),
{
    let k = present_file_is_moved(legacy_names(), present, config_root, root, i);
}

/// The files that hold a secret are told apart from all others, and the workspace, the
/// settings and the sessions are among those that move.
pub proof fn secrets_are_known()
    ensures
        legacy_names().contains(("remote_secret"@, true)),
        legacy_names().contains(("remote_tokens.json"@, true)),
        legacy_names().contains(("pair_code"@, true)),
        legacy_names().contains(("workspace.json"@, false)),
        legacy_names().contains(("settings.json"@, false)),
        legacy_names().contains(("keybindings.json"@, false)),
        legacy_names().contains(("sessions"@, false)),
        legacy_names().contains(("themes"@, false)),
{
    let names = legacy_names();
    assert(names[6] == ("remote_secret"@, true));
    assert(names[7] == ("remote_tokens.json"@, true));
    assert(names[8] == ("pair_code"@, true));
    assert(names[0] == ("workspace.json"@, false));
    assert(names[2] == ("settings.json"@, false));
    assert(names[3] == ("keybindings.json"@, false));
    assert(names[11] == ("sessions"@, false));
    assert(names[12] == ("themes"@, false));
}

/// Nothing moves that is not there: each move is that of a file that is.
pub proof fn absent_files_are_not_moved(
    names: Seq<(Seq<char>, bool)>,
    present: Seq<Seq<char>>,
    config_root: Seq<char>,
    root: Seq<char>,
    k: int,
)
    requires
        0 <= k < moves_of(names, present, config_root, root).len(),
    ensures
        exists|i: int|
            0 <= i < names.len() && present.contains((#[trigger] names[i]).0) && moves_of(
                names,
                present,
                config_root,
                root,
            )[k].from == join_path_seq(config_root, names[i].0),
        moves_of(names, present, config_root, root).len() <= names.len(),
    decreases names.len(),
{
    if names.len() > 0 {
        let front = names.drop_last();
        let before = moves_of(front, present, config_root, root);
        if before.len() > 0 {
            absent_files_are_not_moved(
                front,
                present,
                config_root,
                root,
                if k < before.len() {
                    k
                } else {
                    0
                },
            );
        }
        if k < before.len() {
            let i = choose|i: int|
                0 <= i < front.len() && present.contains((#[trigger] front[i]).0) && before[k].from
                    == join_path_seq(config_root, front[i].0);
            assert(names[i] == front[i]);
        } else {
            assert(names[names.len() - 1] == names.last());
        }
    }
}

/// The profile that was used last is marked in the list, and no other; every line
/// tells the id and the name.
pub proof fn last_used_profile_is_marked(entry: ProfileEntry, last_used: Option<Seq<char>>)
    ensures
        list_line(entry, last_used)[0] == '*' <==> last_used == Some(entry.id@),
        entry.display_name@.is_suffix_of(list_line(entry, last_used)),
{
    reveal_strlit("*");
    reveal_strlit(" ");
    assert("*"@.len() == 1 && "*"@[0] == '*');
    assert(" "@.len() == 1 && " "@[0] == ' ');
    let line = list_line(entry, last_used);
    let name = entry.display_name@;
    assert(line.skip(line.len() - name.len()) == name);
}

proof fn leading_hyphens_go(s: Seq<char>)
    ensures
        ({
            let t = without_leading_hyphens(s);
            t.len() > 0 ==> t[0] != '-'
        }),
        s.len() > 0 && s[0] != '-' ==> without_leading_hyphens(s) == s,
    decreases s.len(),
{
    if s.len() > 0 && s[0] == '-' {
        leading_hyphens_go(s.skip(1));
    }
}

proof fn trailing_hyphens_go(s: Seq<char>)
    ensures
        ({
            let t = without_trailing_hyphens(s);
            &&& t.len() > 0 ==> t.last() != '-' && t[0] == s[0]
            &&& t.len() <= s.len()
        }),
        s.len() > 0 && s.last() != '-' ==> without_trailing_hyphens(s) == s,
    decreases s.len(),
{
    if s.len() > 0 && s.last() == '-' {
        trailing_hyphens_go(s.drop_last());
    }
}

/// An id made from a name has at least one character and neither begins nor ends with
/// a hyphen; a name of letters and digits alone is its own id in small letters.
pub proof fn slugs_are_tidy(name: Seq<char>)
    ensures
        slug(name).len() > 0,
        slug(name)[0] != '-',
        slug(name).last() != '-',
        lowercase(name).len() > 0 && !lowercase(name).contains('-') && (forall|i: int|
            0 <= i < lowercase(name).len() ==> alphanumeric(#[trigger] lowercase(name)[i]))
            ==> slug(name) == lowercase(name),
{
    reveal_strlit("profile");
    assert("profile"@.len() == 7 && "profile"@[0] == 'p' && "profile"@[6] == 'e');
    let lower = lowercase(name);
    let mapped = Seq::new(lower.len(), |i: int| slug_char(lower[i]));
    leading_hyphens_go(mapped);
    trailing_hyphens_go(without_leading_hyphens(mapped));
    if lower.len() > 0 && !lower.contains('-') && (forall|i: int|
        0 <= i < lower.len() ==> alphanumeric(#[trigger] lower[i])) {
        assert(mapped =~= lower);
        assert(lower[0] != '-');
        assert(lower.last() == lower[lower.len() - 1]);
    }
}

/// A new id is taken by no profile and begins with the name it was made from.
pub proof fn unique_ids_are_free(id: Seq<char>, slug: Seq<char>, taken: Seq<Seq<char>>)
    requires
        is_unique_id(id, slug, taken),
    ensures
        !taken.contains(id),
        slug.is_prefix_of(id),
        !taken.contains(slug) ==> id == slug,
{
    if taken.contains(slug) {
        let n = choose|n: nat| #[trigger] is_first_free(id, slug, taken, n);
        assert(is_first_free(id, slug, taken, n));
        assert(slug.is_prefix_of(numbered(slug, n)));
    }
}

/// The process that holds a lock is the one that it names, whatever blanks stand
/// around the number.
pub proof fn locks_name_their_process(content: Seq<char>, pid: nat)
    requires
        trim_seq(content) == decimal(pid),
        pid <= u32::MAX,
    ensures
        lock_pid_of(content) == Some(pid),
{
    decimal_reads_back(pid, u32::MAX as nat);
}

/// The first index has one profile, which is the default one and the last used one, and
/// so the one that is chosen.
pub proof fn first_profile_is_the_default(index: ProfileIndex, now: Seq<char>)
    requires
        is_first_index(index, now),
    ensures
        index.profiles@.len() == 1,
        index.profiles@[0].id@ == index.default_profile@,
        index.profiles@[0].created_at@ == now,
        chosen(index, None) == Ok::<Seq<char>, Seq<char>>(index.default_profile@),
        delete_refusal(index, index.default_profile@, None, false) is Some,
{
    assert(index.ids().len() == index.profiles@.len());
    assert(index.ids()[0] == "default"@);
}

/// The first settings hand the directory to the extension, and so it is read back from
/// them.
pub proof fn first_settings_hold_the_directory(
    settings: Json,
    dir: Seq<char>,
    extension_name: Seq<char>,
)
    requires
        are_first_settings(settings, dir, extension_name),
    ensures
        settings.field("extension_settings"@) is Some,
        settings.field("extension_settings"@)->0.field(extension_name) is Some,
        settings.field("extension_settings"@)->0.field(extension_name)->0.field_text("config_dir"@)
            == Some(dir),
        settings.field("version"@) is Some && settings.field("version"@)->0.unsigned() == Some(
            3u64,
        ),
{
}

/// The process of a profile is the one that its file names.
pub proof fn processes_are_named(remote: Json, value: Json, pid: u32)
    requires
        remote.field("pid"@) == Some(value),
        value.unsigned() == Some(pid as u64),
    ensures
        pid_of(remote) == pid,
{
}

/// A profile that was not found is told by name, with all that there are.
pub proof fn missing_profiles_are_told(index: ProfileIndex, id: Seq<char>)
    requires
        !index.ids().contains(id),
    ensures
        chosen(index, Some(id)) == Err::<Seq<char>, Seq<char>>(not_found_text(id, index.ids())),
        ("Profile '"@ + id + "' not found. Available: "@ + join_seq(
            index.ids(),
            ", "@,
        )).is_prefix_of(not_found_text(id, index.ids())),
{
    let start = "Profile '"@ + id + "' not found. Available: "@ + join_seq(index.ids(), ", "@);
    assert(start.is_prefix_of(not_found_text(id, index.ids())));
}

/// The choice between profiles lists each of them, in order.
pub proof fn choices_are_listed(profiles: Seq<ProfileEntry>, entry: ProfileEntry)
    ensures
        choice_lines(profiles.push(entry)) == choice_lines(profiles) + ("  "@ + pad_right_seq(
            entry.id@,
            20,
        ) + " "@ + entry.display_name@ + "\n"@),
        choice_lines(Seq::empty()).len() == 0,
{
    assert(profiles.push(entry).drop_last() == profiles);
    assert(choice_lines(profiles.push(entry)) =~= choice_lines(profiles) + ("  "@ + pad_right_seq(
        entry.id@,
        20,
    ) + " "@ + entry.display_name@ + "\n"@));
}

/// A number is put behind a name that is taken, and never a larger one than needed: where
/// a number is free, the new id has that one or a smaller one.
pub proof fn smallest_free_number_is_taken(
    id: Seq<char>,
    slug: Seq<char>,
    taken: Seq<Seq<char>>,
    k: nat,
)
    requires
        is_unique_id(id, slug, taken),
        taken.contains(slug),
        k >= 2,
        !taken.contains(numbered(slug, k)),
    ensures
        exists|n: nat| 2 <= n <= k && id == #[trigger] numbered(slug, n),
        k == 2 ==> id == numbered(slug, 2),
{
    let n = choose|n: nat| #[trigger] is_first_free(id, slug, taken, n);
    assert(is_first_free(id, slug, taken, n));
    if n > k {
        assert(taken.contains(numbered(slug, k)));
    }
    assert(id == numbered(slug, n));
}

/// The paths of a profile are those of its id, below the directory of the configuration.
pub proof fn paths_are_those_of_the_profile(
    paths: ProfilePaths,
    id: Seq<char>,
    config_root: Seq<char>,
)
    requires
        are_paths(paths, id, config_root),
        is_valid_id(id),
    ensures
        paths.id@ == id,
        paths.config_root@ == config_root,
        paths.root@ == join_path_seq(config_root, "profiles"@) + "/"@ + id,
{
    profiles_have_their_own_directories(config_root, id, id);
}

} // verus!
