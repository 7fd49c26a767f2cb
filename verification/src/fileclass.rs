//! What each file inside a save folder is.
//!
//! A save folder almost never holds only saves: there are logs, analytics queues, this
//! monitor's resolution. [`FileClass::Junk`] alone stays out of a backup, so doubt never lands
//! there. [`FileClass::DeviceLocal`] is where doubt lands: it is backed up, and a restore writes
//! it only when asked to by hand. The catalogue's filename patterns arrive as `shields`:
//! whatever matches one is save data and no later rule touches it.

use vstd::prelude::*;

use crate::glob::glob_match;
#[allow(unused_imports)]
use crate::glob::{globs, is_literal, literal_patterns_match_themselves};
use crate::text::{
    chars_of, ends_with, holds, last_of, same, split, starts_with, strip_prefix, text_of, to_lower,
    trim, trim_tail,
};
#[allow(unused_imports)]
use crate::text::{
    begins, ends, last_at, lower, slices, split_adds_nothing, split_is_not_empty, split_joins,
    split_of_unbroken, split_on, trimmed, views, without_tail,
};

verus! {

/// What a file inside the save folder is.
#[derive(Debug, Clone, Copy, PartialEq, Eq, Structural)]
pub enum FileClass {
    /// The player's data. Backed up and restored.
    SaveData,
    /// This machine's data rather than the player's. Backed up, restored on request only.
    DeviceLocal,
    /// Nobody's data. Never backed up, never restored.
    Junk,
}

impl FileClass {
    /// Does a file of this class go into a new snapshot?
    pub open spec fn backed_up(self) -> bool {
        self != FileClass::Junk
    }

    /// Does a restore write a file of this class?
    pub open spec fn restored(self, allow_device_local: bool) -> bool {
        self == FileClass::SaveData || (self == FileClass::DeviceLocal && allow_device_local)
    }

    /// Does it go into a new snapshot?
    pub fn is_backed_up(self) -> (r: bool)
        ensures
            r == self.backed_up(),
    {
        !matches!(self, FileClass::Junk)
    }

    /// Does a restore write it to disk? `allow_device_local` is the switch the user turns on by
    /// hand.
    pub fn is_restored(self, allow_device_local: bool) -> (r: bool)
        ensures
            r == self.restored(allow_device_local),
    {
        match self {
            FileClass::SaveData => true,
            FileClass::DeviceLocal => allow_device_local,
            FileClass::Junk => false,
        }
    }
}

/// The two lists every walk of a save folder has to agree on: what the catalogue shields as
/// save data, and what a shared save admits at all.
#[derive(Debug, Clone, Copy)]
pub struct Scope<'a> {
    /// Filename patterns that shield a file as save data.
    pub shields: &'a [String],
    /// Patterns naming what a shared save consists of, relative to its root. Empty means
    /// everything. See [`included`].
    pub includes: &'a [String],
}

impl<'a> Scope<'a> {
    /// A scope over the whole folder: the game's shields and no list of names.
    pub fn shields_only(shields: &'a [String]) -> (r: Self)
        ensures
            r.shields == shields,
            r.includes@.len() == 0,
    {
        Scope { shields, includes: &[] }
    }
}

impl<'a> Default for Scope<'a> {
    fn default() -> (r: Self)
        ensures
            r.shields@.len() == 0,
            r.includes@.len() == 0,
    {
        Scope { shields: &[], includes: &[] }
    }
}

/// Does the pattern cover the path? Segment by segment; a pattern with fewer segments names a
/// directory and covers everything beneath it.
pub open spec fn covers(pattern: Seq<char>, path: Seq<char>) -> bool {
    let p = split_on(pattern, '/');
    let s = split_on(path, '/');
    p.len() <= s.len() && forall|i: int| 0 <= i < p.len() ==> globs(#[trigger] p[i], s[i])
}

/// Is the path one of those that the list names? An empty list is no filter.
pub open spec fn named_by(list: Seq<Seq<char>>, path: Seq<char>) -> bool {
    list.len() == 0 || exists|i: int| 0 <= i < list.len() && covers(#[trigger] list[i], path)
}

/// Can the pattern cover something under the directory? Their segments match for as long as
/// both have one.
pub open spec fn reaches(pattern: Seq<char>, dir: Seq<char>) -> bool {
    let p = split_on(pattern, '/');
    let s = split_on(dir, '/');
    forall|i: int| 0 <= i < p.len() && i < s.len() ==> globs(#[trigger] p[i], s[i])
}

/// Can the list name something under the directory?
pub open spec fn reached_by(list: Seq<Seq<char>>, dir: Seq<char>) -> bool {
    list.len() == 0 || exists|i: int| 0 <= i < list.len() && reaches(#[trigger] list[i], dir)
}

/// Does the entry name a file or a folder outright, without wildcards?
pub open spec fn outright(entry: Seq<char>) -> bool {
    entry.len() > 0 && is_literal(entry)
}

/// The entries that name a file or a folder outright, in order.
pub open spec fn outright_of(list: Seq<Seq<char>>) -> Seq<Seq<char>>
    decreases list.len(),
{
    if list.len() == 0 {
        list
    } else if outright(list.last()) {
        outright_of(list.drop_last()).push(list.last())
    } else {
        outright_of(list.drop_last())
    }
}

/// Does the path lie beneath the folder?
pub open spec fn beneath(folder: Seq<char>, path: Seq<char>) -> bool {
    let f = without_tail(folder, '/');
    begins(path, f.push('/')) && path.len() > f.len() + 1
}

/// Does the path lie beneath a folder that the list names outright?
pub open spec fn mirrored(list: Seq<Seq<char>>, path: Seq<char>) -> bool {
    exists|i: int| 0 <= i < list.len() && outright(#[trigger] list[i]) && beneath(list[i], path)
}

/// Is the path itself an entry that names it outright?
pub open spec fn named_outright(list: Seq<Seq<char>>, path: Seq<char>) -> bool {
    exists|i: int|
        0 <= i < list.len() && outright(#[trigger] list[i]) && without_tail(list[i], '/') == path
}

/// The last segment of a path.
pub open spec fn basename(path: Seq<char>) -> Seq<char> {
    path.skip(last_at(path, '/') + 1)
}

/// What follows the last dot of a name, unless that dot opens the name.
pub open spec fn extension(name: Seq<char>) -> Option<Seq<char>> {
    if last_at(name, '.') > 0 {
        Some(name.skip(last_at(name, '.') + 1))
    } else {
        None
    }
}

/// The name without its extension.
pub open spec fn stem(name: Seq<char>) -> Seq<char> {
    if last_at(name, '.') > 0 {
        name.take(last_at(name, '.'))
    } else {
        name
    }
}

/// Litter of operating systems, file managers and engines, by exact name.
pub open spec fn junk_name(name: Seq<char>) -> bool {
    ||| name == ".ds_store"@
    ||| name == "thumbs.db"@
    ||| name == "ehthumbs.db"@
    ||| name == "desktop.ini"@
    ||| name == ".directory"@
    ||| name == "steam_autocloud.vdf"@
    ||| name == "remotecache.vdf"@
    ||| name == "player.log"@
    ||| name == "player-prev.log"@
    ||| name == "output_log.txt"@
    ||| name == "output_log_prev.txt"@
    ||| name == "session.lock"@
}

/// Extensions that are never save data.
pub open spec fn junk_extension(ext: Seq<char>) -> bool {
    ||| ext == "dmp"@
    ||| ext == "mdmp"@
    ||| ext == "stackdump"@
    ||| ext == "tmp"@
    ||| ext == "temp"@
    ||| ext == "part"@
    ||| ext == "crdownload"@
    ||| ext == "swp"@
}

/// Directories that hold an engine's telemetry.
pub open spec fn junk_segment(segment: Seq<char>) -> bool {
    segment == "shadervariantanalytics"@ || segment == "crashreportclient"@
}

/// Extensions of config files.
pub open spec fn config_extension(ext: Seq<char>) -> bool {
    ||| ext == "ini"@
    ||| ext == "cfg"@
    ||| ext == "conf"@
    ||| ext == "config"@
    ||| ext == "toml"@
    ||| ext == "yaml"@
    ||| ext == "yml"@
    ||| ext == "vdf"@
    ||| ext == "properties"@
    ||| ext == "log"@
}

/// Stems that end like this are config whatever their extension.
pub open spec fn config_stem_ending(stem: Seq<char>) -> bool {
    ||| ends(stem, "settings"@)
    ||| ends(stem, "config"@)
    ||| ends(stem, "configuration"@)
    ||| ends(stem, "prefs"@)
    ||| ends(stem, "preferences"@)
    ||| ends(stem, "options"@)
}

/// Stems that are config when they are exactly this.
pub open spec fn config_stem(stem: Seq<char>) -> bool {
    ||| stem == "graphics"@
    ||| stem == "graphic"@
    ||| stem == "video"@
    ||| stem == "audio"@
    ||| stem == "sound"@
    ||| stem == "display"@
    ||| stem == "resolution"@
    ||| stem == "input"@
    ||| stem == "controls"@
    ||| stem == "keybinds"@
    ||| stem == "keybindings"@
    ||| stem == "keyboard"@
    ||| stem == "gamepad"@
    ||| stem == "launcher"@
    ||| stem == "hardware"@
}

/// Does one of the directories of the path hold telemetry?
pub open spec fn under_telemetry(segments: Seq<Seq<char>>) -> bool {
    exists|i: int| 0 <= i < segments.len() - 1 && junk_segment(#[trigger] segments[i])
}

/// Is there an `analytics` directory somewhere under a `unity` one?
pub open spec fn under_unity_analytics(segments: Seq<Seq<char>>) -> bool {
    exists|u: int, i: int|
        0 <= u < i < segments.len() - 1 && #[trigger] segments[u] == "unity"@
            && #[trigger] segments[i] == "analytics"@
}

/// Does a shield match the name?
pub open spec fn shielded(shields: Seq<Seq<char>>, name: Seq<char>) -> bool {
    exists|i: int| 0 <= i < shields.len() && globs(#[trigger] shields[i], name)
}

/// Litter that no doubt attaches to.
pub open spec fn litter(path: Seq<char>) -> bool {
    let name = basename(path);
    let segments = split_on(path, '/');
    ||| junk_name(name)
    ||| begins(name, "._"@)
    ||| (extension(name) matches Some(e) && junk_extension(e))
    ||| under_telemetry(segments)
    ||| under_unity_analytics(segments)
}

/// Config, by the extension or the stem of the name.
pub open spec fn config_name(name: Seq<char>) -> bool {
    ||| (extension(name) matches Some(e) && config_extension(e))
    ||| config_stem(stem(name))
    ||| config_stem_ending(stem(name))
}

/// The class of the file at `path`.
pub open spec fn class_of(
    path: Seq<char>,
    shields: Seq<Seq<char>>,
    includes: Seq<Seq<char>>,
) -> FileClass {
    let low = lower(path);
    let name = basename(low);
    if !named_by(includes, path) {
        FileClass::Junk
    } else if ends(name, RESTORE_TMP_SUFFIX@) {
        FileClass::Junk
    } else if shielded(shields, name) {
        FileClass::SaveData
    } else if litter(low) {
        FileClass::Junk
    } else if config_name(name) {
        FileClass::DeviceLocal
    } else {
        FileClass::SaveData
    }
}

/// Is `rel_path` one of the files a shared save names?
///
/// An empty list is no filter. Otherwise the path, `/`-separated, matches when one pattern
/// matches it segment by segment with [`glob_match`]: `*` and `?` stay inside a segment and
/// there is no `**`. A pattern with fewer segments than the path covers everything beneath the
/// directory it names; one with more matches nothing. The match is exact in case.
pub fn included(includes: &[String], rel_path: &str) -> (r: bool)
    ensures
        r == named_by(views(includes@), rel_path@),
{
    if includes.len() == 0 {
        return true;
    }
    let ghost list = views(includes@);
    let mut i: usize = 0;
    while i < includes.len()
        invariant
            i <= includes.len(),
            list == views(includes@),
            forall|k: int| 0 <= k < i ==> !covers(#[trigger] list[k], rel_path@),
        decreases includes.len() - i,
    {
        if pattern_covers(includes[i].as_str(), rel_path) {
            assert(covers(list[i as int], rel_path@));
            return true;
        }
        i += 1;
    }
    false
}

/// The entries of a shared save's list that could name a folder outright: no `*` or `?`
/// anywhere in them.
pub fn mirrored_folders<'a>(includes: &'a [String]) -> (r: Vec<&'a str>)
    ensures
        slices(r@) == outright_of(views(includes@)),
{
    let mut r: Vec<&'a str> = Vec::new();
    let ghost list = views(includes@);
    let mut i: usize = 0;
    assert(slices(r@) =~= outright_of(list.take(0)));
    while i < includes.len()
        invariant
            i <= includes.len(),
            list == views(includes@),
            slices(r@) == outright_of(list.take(i as int)),
        decreases includes.len() - i,
    {
        let entry = includes[i].as_str();
        assert(list.take(i + 1).drop_last() =~= list.take(i as int));
        if is_outright(entry) {
            let ghost was = slices(r@);
            r.push(entry);
            assert(slices(r@) =~= was.push(entry@));
        }
        i += 1;
    }
    assert(list.take(includes.len() as int) =~= list);
    r
}

/// Whether the entry names a file or a folder outright.
fn is_outright(entry: &str) -> (r: bool)
    ensures
        r == outright(entry@),
{
    !entry.is_empty() && !holds(entry, '*') && !holds(entry, '?')
}

/// Whether the path lies beneath the folder.
fn is_beneath(folder: &str, rel_path: &str) -> (r: bool)
    ensures
        r == beneath(folder@, rel_path@),
{
    let mut f = trim_tail(folder, '/');
    f.push('/');
    match strip_prefix(rel_path, f.as_str()) {
        Some(rest) => rest.as_str().is_empty() == false,
        None => false,
    }
}

/// Is `rel_path` inside a folder the share names whole, so that a version written into the save
/// replaces the folder's contents instead of merging into them?
///
/// `worlds_local/Alpha` covers `worlds_local/Alpha/_main.8.db2` but neither
/// `worlds_local/Alpha.db` nor `worlds_local/Alpha2/x`. A wildcard entry and a flat file keep the
/// merge. An empty list is no share.
pub fn in_mirrored_folder(includes: &[String], rel_path: &str) -> (r: bool)
    ensures
        r == mirrored(views(includes@), rel_path@),
{
    let ghost list = views(includes@);
    let mut i: usize = 0;
    while i < includes.len()
        invariant
            i <= includes.len(),
            list == views(includes@),
            forall|k: int|
                0 <= k < i ==> !(outright(#[trigger] list[k]) && beneath(list[k], rel_path@)),
        decreases includes.len() - i,
    {
        let entry = includes[i].as_str();
        if is_outright(entry) && is_beneath(entry, rel_path) {
            assert(outright(list[i as int]));
            return true;
        }
        i += 1;
    }
    false
}

/// Does a version with these files hold the share's world as a folder, a file beneath one of
/// its [`mirrored_folders`]?
pub fn holds_mirrored_folder(includes: &[String], version_files: &[&str]) -> (r: bool)
    ensures
        r == exists|i: int|
            0 <= i < version_files@.len() && mirrored(views(includes@), #[trigger] version_files@[i]@),
{
    let mut i: usize = 0;
    while i < version_files.len()
        invariant
            i <= version_files.len(),
            forall|k: int|
                0 <= k < i ==> !mirrored(views(includes@), #[trigger] version_files@[k]@),
        decreases version_files.len() - i,
    {
        if in_mirrored_folder(includes, version_files[i]) {
            return true;
        }
        i += 1;
    }
    false
}

/// Is `rel_path`, a local file the version being written does not carry, replaced by that
/// version, and so moved aside rather than kept? Anything beneath a folder the share names whole
/// is. Once the version holds the world as a folder, so are the files the list names outright.
/// What only a wildcard names never is.
pub fn replaced_by_version(
    includes: &[String],
    rel_path: &str,
    version_holds_folder: bool,
) -> (r: bool)
    ensures
        r == (mirrored(views(includes@), rel_path@) || (version_holds_folder && named_outright(
            views(includes@),
            rel_path@,
        ))),
{
    if in_mirrored_folder(includes, rel_path) {
        return true;
    }
    if !version_holds_folder {
        return false;
    }
    let ghost list = views(includes@);
    let mut i: usize = 0;
    while i < includes.len()
        invariant
            i <= includes.len(),
            version_holds_folder,
            list == views(includes@),
            forall|k: int|
                0 <= k < i ==> !(outright(#[trigger] list[k]) && without_tail(list[k], '/')
                    == rel_path@),
        decreases includes.len() - i,
    {
        let entry = includes[i].as_str();
        if is_outright(entry) && same(trim_tail(entry, '/').as_str(), rel_path) {
            assert(outright(list[i as int]));
            return true;
        }
        i += 1;
    }
    false
}

/// Can any file under the directory `rel_dir` be [`included`]? A walk asks before descending.
pub fn reaches_beneath(includes: &[String], rel_dir: &str) -> (r: bool)
    ensures
        r == reached_by(views(includes@), rel_dir@),
{
    if includes.len() == 0 {
        return true;
    }
    let ghost list = views(includes@);
    let mut i: usize = 0;
    while i < includes.len()
        invariant
            i <= includes.len(),
            list == views(includes@),
            forall|k: int| 0 <= k < i ==> !reaches(#[trigger] list[k], rel_dir@),
        decreases includes.len() - i,
    {
        let p = split(includes[i].as_str(), '/');
        let s = split(rel_dir, '/');
        if leading_segments_match(&p, &s) {
            assert(reaches(list[i as int], rel_dir@));
            return true;
        }
        proof {
            assert(!reaches(list[i as int], rel_dir@));
        }
        i += 1;
    }
    false
}

/// Whether the segments match the patterns for as long as there is one of both.
fn leading_segments_match(p: &Vec<String>, s: &Vec<String>) -> (r: bool)
    ensures
        r == forall|i: int|
            0 <= i < p.len() && i < s.len() ==> globs(#[trigger] views(p@)[i], views(s@)[i]),
{
    let mut i: usize = 0;
    while i < p.len() && i < s.len()
        invariant
            i <= p.len(),
            i <= s.len(),
            forall|k: int| 0 <= k < i ==> globs(#[trigger] views(p@)[k], views(s@)[k]),
        decreases p.len() - i,
    {
        if !glob_match(p[i].as_str(), s[i].as_str()) {
            assert(!globs(views(p@)[i as int], views(s@)[i as int]));
            return false;
        }
        i += 1;
    }
    true
}

/// One pattern against one path.
pub fn pattern_covers(pattern: &str, rel_path: &str) -> (r: bool)
    ensures
        r == covers(pattern@, rel_path@),
{
    let p = split(pattern, '/');
    let s = split(rel_path, '/');
    assert(views(p@).len() == p.len() && views(s@).len() == s.len());
    p.len() <= s.len() && leading_segments_match(&p, &s)
}

/// What a restore is allowed to write to disk.
#[derive(Debug, Clone, PartialEq, Eq)]
pub struct RestoreGate {
    /// Filename patterns that shield a file as save data.
    pub shields: Vec<String>,
    /// What a shared save consists of; empty for everything. A file outside it is never
    /// written, whatever the switch below says.
    pub includes: Vec<String>,
    /// The user asked by hand for the snapshot's config to be written over this machine's.
    pub allow_device_local: bool,
}

impl RestoreGate {
    /// May the file at `path` be written back?
    pub open spec fn lets(self, path: Seq<char>) -> bool {
        class_of(path, views(self.shields@), views(self.includes@)).restored(
            self.allow_device_local,
        )
    }

    /// Wide open: for callers that did their own filtering.
    pub fn permissive() -> (r: Self)
        ensures
            r.shields@.len() == 0,
            r.includes@.len() == 0,
            r.allow_device_local,
    {
        RestoreGate { shields: Vec::new(), includes: Vec::new(), allow_device_local: true }
    }

    /// The lists the walk on the other side of this gate has to use.
    pub fn scope(&self) -> (r: Scope<'_>)
        ensures
            r.shields@ == self.shields@,
            r.includes@ == self.includes@,
    {
        Scope { shields: self.shields.as_slice(), includes: self.includes.as_slice() }
    }

    /// Does this snapshot file get written to disk?
    pub fn allows(&self, rel_path: &str) -> (r: bool)
        ensures
            r == self.lets(rel_path@),
    {
        classify(rel_path, self.scope()).is_restored(self.allow_device_local)
    }
}

impl Default for RestoreGate {
    fn default() -> (r: Self)
        ensures
            r.shields@.len() == 0,
            r.includes@.len() == 0,
            !r.allow_device_local,
    {
        RestoreGate { shields: Vec::new(), includes: Vec::new(), allow_device_local: false }
    }
}

/// The suffix a restore gives each file it stages beside its destination before renaming it
/// into place. Never save data.
pub const RESTORE_TMP_SUFFIX: &'static str = ".hoard-restore.tmp";

/// Is `path` (a name, or a path whose last part is the name) a restore's staged copy? The
/// suffix whatever its case.
pub fn is_restore_tmp(path: &str) -> (r: bool)
    ensures
        r == ends(lower(path@), RESTORE_TMP_SUFFIX@),
{
    ends_with(to_lower(path).as_str(), RESTORE_TMP_SUFFIX)
}

/// Classifies a file by its path relative to the save root, `/`-separated.
///
/// A file that `scope.includes` does not name is junk. A restore's staged copy is junk. What
/// matches one of `scope.shields` is save data. Then comes unambiguous litter, then config; the
/// rest is save data.
pub fn classify(rel_path: &str, scope: Scope<'_>) -> (r: FileClass)
    ensures
        r == class_of(rel_path@, views(scope.shields@), views(scope.includes@)),
{
    if !included(scope.includes, rel_path) {
        return FileClass::Junk;
    }
    let lower_path = to_lower(rel_path);
    let name = basename_of(lower_path.as_str());
    let name = name.as_str();
    // Ahead of the shields: one that ends in `*` would take a leftover for save data.
    if ends_with(name, RESTORE_TMP_SUFFIX) {
        return FileClass::Junk;
    }
    if any_shield(scope.shields, name) {
        return FileClass::SaveData;
    }
    let segments = split(lower_path.as_str(), '/');
    let ext = extension_of(name);
    let litter_ext = match &ext {
        Some(e) => is_junk_extension(e.as_str()),
        None => false,
    };
    if is_junk_name(name) || starts_with(name, "._") || litter_ext || is_under_telemetry(&segments)
        || is_under_unity_analytics(&segments) {
        return FileClass::Junk;
    }
    let config_ext = match &ext {
        Some(e) => is_config_extension(e.as_str()),
        None => false,
    };
    let stem = stem_of(name);
    if config_ext || is_config_stem(stem.as_str()) || is_config_stem_ending(stem.as_str()) {
        return FileClass::DeviceLocal;
    }
    FileClass::SaveData
}

/// The last segment of a path.
pub fn basename_of(path: &str) -> (r: String)
    ensures
        r@ == basename(path@),
{
    let c = chars_of(path);
    let at: usize = last_of(&c, '/');
    assert(c@.subrange(at as int, c.len() as int) =~= c@.skip(at as int));
    text_of(&c, at, c.len())
}

/// Whether a shield matches the name.
fn any_shield(shields: &[String], name: &str) -> (r: bool)
    ensures
        r == shielded(views(shields@), name@),
{
    let ghost list = views(shields@);
    let mut i: usize = 0;
    while i < shields.len()
        invariant
            i <= shields.len(),
            list == views(shields@),
            forall|k: int| 0 <= k < i ==> !globs(#[trigger] list[k], name@),
        decreases shields.len() - i,
    {
        if glob_match(shields[i].as_str(), name) {
            assert(globs(list[i as int], name@));
            return true;
        }
        i += 1;
    }
    false
}

fn is_junk_name(name: &str) -> (r: bool)
    ensures
        r == junk_name(name@),
{
    same(name, ".ds_store") || same(name, "thumbs.db") || same(name, "ehthumbs.db") || same(
        name,
        "desktop.ini",
    ) || same(name, ".directory") || same(name, "steam_autocloud.vdf") || same(
        name,
        "remotecache.vdf",
    ) || same(name, "player.log") || same(name, "player-prev.log") || same(name, "output_log.txt")
        || same(name, "output_log_prev.txt") || same(name, "session.lock")
}

fn is_junk_extension(ext: &str) -> (r: bool)
    ensures
        r == junk_extension(ext@),
{
    same(ext, "dmp") || same(ext, "mdmp") || same(ext, "stackdump") || same(ext, "tmp") || same(
        ext,
        "temp",
    ) || same(ext, "part") || same(ext, "crdownload") || same(ext, "swp")
}

fn is_config_extension(ext: &str) -> (r: bool)
    ensures
        r == config_extension(ext@),
{
    same(ext, "ini") || same(ext, "cfg") || same(ext, "conf") || same(ext, "config") || same(
        ext,
        "toml",
    ) || same(ext, "yaml") || same(ext, "yml") || same(ext, "vdf") || same(ext, "properties")
        || same(ext, "log")
}

fn is_config_stem_ending(stem: &str) -> (r: bool)
    ensures
        r == config_stem_ending(stem@),
{
    ends_with(stem, "settings") || ends_with(stem, "config") || ends_with(stem, "configuration")
        || ends_with(stem, "prefs") || ends_with(stem, "preferences") || ends_with(stem, "options")
}

fn is_config_stem(stem: &str) -> (r: bool)
    ensures
        r == config_stem(stem@),
{
    same(stem, "graphics") || same(stem, "graphic") || same(stem, "video") || same(stem, "audio")
        || same(stem, "sound") || same(stem, "display") || same(stem, "resolution") || same(
        stem,
        "input",
    ) || same(stem, "controls") || same(stem, "keybinds") || same(stem, "keybindings") || same(
        stem,
        "keyboard",
    ) || same(stem, "gamepad") || same(stem, "launcher") || same(stem, "hardware")
}

/// Everything hanging off a telemetry directory.
fn is_under_telemetry(segments: &Vec<String>) -> (r: bool)
    ensures
        r == under_telemetry(views(segments@)),
{
    let ghost list = views(segments@);
    let mut i: usize = 0;
    while i < segments.len() && i + 1 < segments.len()
        invariant
            i <= segments.len(),
            list == views(segments@),
            forall|k: int| 0 <= k < i ==> !junk_segment(#[trigger] list[k]),
        decreases segments.len() - i,
    {
        let s = segments[i].as_str();
        if same(s, "shadervariantanalytics") || same(s, "crashreportclient") {
            assert(junk_segment(list[i as int]));
            return true;
        }
        i += 1;
    }
    false
}

/// `Unity/<something>/Analytics/...` at any depth. The `unity` ancestor is required so a game's
/// own `analytics` folder is not mistaken for it.
pub fn is_under_unity_analytics(segments: &Vec<String>) -> (r: bool)
    ensures
        r == under_unity_analytics(views(segments@)),
{
    let ghost list = views(segments@);
    let mut unity: Option<usize> = None;
    let mut i: usize = 0;
    // The file itself does not count as a containing directory.
    while i < segments.len() && i + 1 < segments.len()
        invariant
            i <= segments.len(),
            list == views(segments@),
            unity matches Some(u) ==> u < i && list[u as int] == "unity"@,
            unity is None ==> forall|k: int| 0 <= k < i ==> #[trigger] list[k] != "unity"@,
            forall|u: int, k: int|
                0 <= u < k < i ==> !(#[trigger] list[u] == "unity"@ && #[trigger] list[k]
                    == "analytics"@),
        decreases segments.len() - i,
    {
        let s = segments[i].as_str();
        assert(list[i as int] == s@);
        if let Some(u) = unity {
            if same(s, "analytics") {
                assert(list[u as int] == "unity"@ && list[i as int] == "analytics"@);
                return true;
            }
        } else if same(s, "unity") {
            unity = Some(i);
        }
        i += 1;
    }
    false
}

/// The extension without the dot. `None` when there is none, or when the dot opens the name:
/// `.bashrc` has no extension, that is its name.
pub fn extension_of(name: &str) -> (r: Option<String>)
    ensures
        r matches Some(e) ==> extension(name@) == Some(e@),
        r is None ==> extension(name@) is None,
{
    let c = chars_of(name);
    let at: usize = last_of(&c, '.');
    if at <= 1 {
        return None;
    }
    assert(c@.subrange(at as int, c.len() as int) =~= c@.skip(at as int));
    Some(text_of(&c, at, c.len()))
}

/// The name without its extension.
pub fn stem_of(name: &str) -> (r: String)
    ensures
        r@ == stem(name@),
{
    let c = chars_of(name);
    let at: usize = last_of(&c, '.');
    if at <= 1 {
        assert(c@.subrange(0, c.len() as int) =~= c@);
        text_of(&c, 0, c.len())
    } else {
        assert(c@.subrange(0, at - 1) =~= c@.take(at - 1));
        text_of(&c, 0, at - 1)
    }
}

/// Does the pattern say what a save is? `*` and its like match everything and shield nothing.
pub open spec fn useful_shield(pattern: Seq<char>) -> bool {
    let p = trimmed(pattern);
    if is_literal(p) {
        p.len() > 0
    } else {
        p != "*"@ && p != "*.*"@ && p != "?"@ && p != "**"@
    }
}

/// Is this catalogue pattern any use as a shield?
///
/// `*` and `*.*` match everything, so they would shield the whole folder. A literal name is
/// informative: it works as an exact shield.
pub fn is_useful_shield(pattern: &str) -> (r: bool)
    ensures
        r == useful_shield(pattern@),
{
    let p = trim(pattern);
    let p = p.as_str();
    if !holds(p, '*') && !holds(p, '?') {
        return !p.is_empty();
    }
    !(same(p, "*") || same(p, "*.*") || same(p, "?") || same(p, "**"))
}

/// A file that the list names lies under directories that the list reaches: a walk that asks
/// [`reaches_beneath`] before it descends misses no file of a share.
pub proof fn a_named_file_lies_where_the_walk_goes(
    list: Seq<Seq<char>>,
    dir: Seq<char>,
    rest: Seq<char>,
)
    requires
        named_by(list, dir.push('/') + rest),
    ensures
        reached_by(list, dir),
{
    if list.len() > 0 {
        split_joins(dir, '/', rest);
        let path = dir.push('/') + rest;
        let i = choose|i: int| 0 <= i < list.len() && covers(#[trigger] list[i], path);
        let p = split_on(list[i], '/');
        let s = split_on(dir, '/');
        assert forall|k: int| 0 <= k < p.len() && k < s.len() implies globs(#[trigger] p[k], s[k]) by {
            assert(split_on(path, '/')[k] == s[k]);
        }
        assert(reaches(list[i], dir));
    }
}

/// A directory that the list does not reach holds no file that the list names.
pub proof fn an_unreached_directory_holds_nothing_named(
    list: Seq<Seq<char>>,
    dir: Seq<char>,
    rest: Seq<char>,
)
    requires
        !reached_by(list, dir),
    ensures
        !named_by(list, dir.push('/') + rest),
{
    if named_by(list, dir.push('/') + rest) {
        a_named_file_lies_where_the_walk_goes(list, dir, rest);
    }
}

/// What a version replaces inside a mirrored folder belongs to the share: the list names it.
/// An entry that ends in `/` is left out; as a pattern it has an empty last segment.
pub proof fn a_mirrored_file_is_named(list: Seq<Seq<char>>, path: Seq<char>)
    requires
        mirrored(list, path),
        forall|i: int| 0 <= i < list.len() && (#[trigger] list[i]).len() > 0 ==> list[i].last() != '/',
    ensures
        named_by(list, path),
{
    let i = choose|i: int|
        0 <= i < list.len() && outright(#[trigger] list[i]) && beneath(list[i], path);
    let entry = list[i];
    assert(without_tail(entry, '/') == entry);
    let rest = path.skip(entry.len() as int + 1);
    assert(path =~= entry.push('/') + rest);
    split_joins(entry, '/', rest);
    let p = split_on(entry, '/');
    assert forall|k: int| 0 <= k < p.len() implies globs(#[trigger] p[k], split_on(path, '/')[k]) by {
        split_adds_nothing(entry, '/', k);
        assert(is_literal(p[k])) by {
            if p[k].contains('*') {
                assert(entry.contains('*'));
            }
            if p[k].contains('?') {
                assert(entry.contains('?'));
            }
        }
        literal_patterns_match_themselves(p[k], p[k]);
    }
    split_is_not_empty(rest, '/');
    assert(covers(list[i], path));
}

/// What a restore writes was backed up: no gate lets litter through.
pub proof fn nothing_is_restored_that_is_not_backed_up(class: FileClass, allow_device_local: bool)
    ensures
        class.restored(allow_device_local) ==> class.backed_up(),
{
}

/// A gate lets nothing through that its list does not name, nor a restore's staged copy, whatever
/// the shields and the switch say.
pub proof fn the_gate_keeps_to_its_list(gate: RestoreGate, path: Seq<char>)
    ensures
        gate.lets(path) ==> named_by(views(gate.includes@), path),
        gate.lets(path) ==> !ends(basename(lower(path)), RESTORE_TMP_SUFFIX@),
{
}

/// A shield beats every rule about names: a named file that matches one is save data, unless it
/// is a restore's staged copy.
pub proof fn a_shield_beats_the_rules_below_it(
    path: Seq<char>,
    shields: Seq<Seq<char>>,
    includes: Seq<Seq<char>>,
)
    requires
        named_by(includes, path),
        shielded(shields, basename(lower(path))),
        !ends(basename(lower(path)), RESTORE_TMP_SUFFIX@),
    ensures
        class_of(path, shields, includes) == FileClass::SaveData,
{
}

/// More shields never take a file out of the backup.
pub proof fn shields_only_add_to_the_backup(
    path: Seq<char>,
    shields: Seq<Seq<char>>,
    more: Seq<Seq<char>>,
    includes: Seq<Seq<char>>,
)
    requires
        class_of(path, shields, includes).backed_up(),
    ensures
        class_of(path, shields + more, includes).backed_up(),
{
    let name = basename(lower(path));
    if shielded(shields, name) {
        let i = choose|i: int| 0 <= i < shields.len() && globs(#[trigger] shields[i], name);
        assert((shields + more)[i] == shields[i]);
    }
}

// ---- laws on names

/// Does the text read as a path: directories, then a name made of `word` and `tail`, its extension
/// with the dot in front?
pub open spec fn reads_as(low: Seq<char>, dirs: Seq<char>, word: Seq<char>, tail: Seq<char>) -> bool {
    &&& low == dirs + word + tail
    &&& dirs.len() == 0 || dirs.last() == '/'
    &&& word.len() > 0
    &&& forall|i: int| 0 <= i < word.len() ==> #[trigger] word[i] != '/'
    &&& forall|i: int| 0 <= i < tail.len() ==> #[trigger] tail[i] != '/'
    &&& tail.len() > 0 ==> tail[0] == '.'
    &&& forall|i: int| 0 < i < tail.len() ==> #[trigger] tail[i] != '.'
    &&& tail.len() == 0 ==> forall|i: int| 0 < i < word.len() ==> #[trigger] word[i] != '.'
}

proof fn last_at_is(s: Seq<char>, c: char, at: int)
    requires
        -1 <= at < s.len(),
        at >= 0 ==> s[at] == c,
        forall|j: int| at < j < s.len() ==> #[trigger] s[j] != c,
    ensures
        last_at(s, c) == at,
    decreases s.len(),
{
    if s.len() > 0 && at < s.len() - 1 {
        assert(s[s.len() - 1] != c);
        assert forall|j: int| at < j < s.drop_last().len() implies #[trigger] s.drop_last()[j]
            != c by {
            assert(s.drop_last()[j] == s[j]);
        }
        last_at_is(s.drop_last(), c, at);
    }
}

proof fn a_name_reads(low: Seq<char>, dirs: Seq<char>, word: Seq<char>, tail: Seq<char>)
    requires
        reads_as(low, dirs, word, tail),
    ensures
        basename(low) == word + tail,
        stem(word + tail) == word,
        tail.len() > 0 ==> extension(word + tail) == Some(tail.skip(1)),
        tail.len() == 0 ==> extension(word + tail) is None,
{
    let name = word + tail;
    assert forall|j: int| dirs.len() - 1 < j < low.len() implies #[trigger] low[j] != '/' by {
        if j < dirs.len() + word.len() {
            assert(low[j] == word[j - dirs.len()]);
        } else {
            assert(low[j] == tail[j - dirs.len() - word.len()]);
        }
    }
    if dirs.len() > 0 {
        assert(low[dirs.len() - 1] == dirs.last());
    }
    last_at_is(low, '/', dirs.len() - 1);
    assert(basename(low) =~= name);
    if tail.len() > 0 {
        assert(name[word.len() as int] == tail[0]);
        assert forall|j: int| word.len() < j < name.len() implies #[trigger] name[j] != '.' by {
            assert(name[j] == tail[j - word.len()]);
        }
        last_at_is(name, '.', word.len() as int);
        assert(name.take(word.len() as int) =~= word);
        assert(name.skip(word.len() as int + 1) =~= tail.skip(1));
    } else {
        assert(name =~= word);
        let at: int = if name[0] == '.' {
            0
        } else {
            -1
        };
        assert forall|j: int| at < j < name.len() implies #[trigger] name[j] != '.' by {
            assert(name[j] == word[j]);
        }
        last_at_is(name, '.', at);
    }
}

/// A file that no shield matches and that goes by the name of the machine's graphics, sound, input
/// or launcher is never save data, whatever its extension and wherever it lies, and a gate that was
/// not opened by hand does not let it through.
pub proof fn the_machines_own_files_are_no_save_data(
    path: &str,
    scope: Scope<'_>,
    gate: RestoreGate,
    dirs: Seq<char>,
    word: Seq<char>,
    tail: Seq<char>,
    class: FileClass,
    allowed: bool,
)
    requires
        call_ensures(classify, (path, scope), class),
        call_ensures(RestoreGate::allows, (&gate, path), allowed),
        reads_as(lower(path@), dirs, word, tail),
        word == "graphics"@ || word == "graphic"@ || word == "video"@ || word == "audio"@ || word
            == "sound"@ || word == "display"@ || word == "resolution"@ || word == "input"@ || word
            == "controls"@ || word == "keybinds"@ || word == "keybindings"@ || word == "keyboard"@
            || word == "gamepad"@ || word == "launcher"@ || word == "hardware"@,
        !gate.allow_device_local,
    ensures
        (forall|i: int|
            0 <= i < scope.shields@.len() ==> !globs(#[trigger] scope.shields@[i]@, word + tail))
            ==> class != FileClass::SaveData,
        (forall|i: int|
            0 <= i < gate.shields@.len() ==> !globs(#[trigger] gate.shields@[i]@, word + tail))
            ==> !allowed,
{
    a_name_reads(lower(path@), dirs, word, tail);
    no_shield_at_all(scope.shields@, word + tail);
    no_shield_at_all(gate.shields@, word + tail);
}

proof fn no_shield_at_all(shields: Seq<String>, name: Seq<char>)
    ensures
        shielded(views(shields), name) <==> !(forall|i: int|
            0 <= i < shields.len() ==> !globs(#[trigger] shields[i]@, name)),
{
    if shielded(views(shields), name) {
        let i = choose|i: int|
            0 <= i < views(shields).len() && globs(#[trigger] views(shields)[i], name);
        assert(globs(shields[i]@, name));
    }
    if !(forall|i: int| 0 <= i < shields.len() ==> !globs(#[trigger] shields[i]@, name)) {
        let i = choose|i: int| 0 <= i < shields.len() && globs(#[trigger] shields[i]@, name);
        assert(globs(views(shields)[i], name));
    }
}

/// The class of every file of a whole folder, by its lower-cased name alone. A shield decides, unless
/// it is a restore's staged copy. Else a name of an operating system's or an engine's litter, an
/// extension that no save has and a telemetry folder on the way make it junk; an extension or a name
/// of config makes it the machine's own; everything else is save data.
pub proof fn a_name_decides(
    path: &str,
    scope: Scope<'_>,
    dirs: Seq<char>,
    word: Seq<char>,
    tail: Seq<char>,
    class: FileClass,
)
    requires
        call_ensures(classify, (path, scope), class),
        scope.includes@.len() == 0,
        reads_as(lower(path@), dirs, word, tail),
    ensures
        ({
            let name = word + tail;
            let ext = tail.skip(1);
            let segments = split_on(lower(path@), '/');
            let shield = exists|i: int|
                0 <= i < scope.shields@.len() && globs(#[trigger] scope.shields@[i]@, name);
            let staged = ends(name, ".hoard-restore.tmp"@);
            let litter_name = name == ".ds_store"@ || name == "thumbs.db"@ || name
                == "ehthumbs.db"@ || name == "desktop.ini"@ || name == ".directory"@ || name
                == "steam_autocloud.vdf"@ || name == "remotecache.vdf"@ || name == "player.log"@
                || name == "player-prev.log"@ || name == "output_log.txt"@ || name
                == "output_log_prev.txt"@ || name == "session.lock"@ || begins(name, "._"@);
            let litter_ext = tail.len() > 0 && (ext == "dmp"@ || ext == "mdmp"@ || ext
                == "stackdump"@ || ext == "tmp"@ || ext == "temp"@ || ext == "part"@ || ext
                == "crdownload"@ || ext == "swp"@);
            let telemetry = exists|i: int|
                0 <= i < segments.len() - 1 && (#[trigger] segments[i]
                    == "shadervariantanalytics"@ || segments[i] == "crashreportclient"@);
            let unity = exists|u: int, i: int|
                0 <= u < i < segments.len() - 1 && #[trigger] segments[u] == "unity"@
                    && #[trigger] segments[i] == "analytics"@;
            let config_ext = tail.len() > 0 && (ext == "ini"@ || ext == "cfg"@ || ext == "conf"@
                || ext == "config"@ || ext == "toml"@ || ext == "yaml"@ || ext == "yml"@ || ext
                == "vdf"@ || ext == "properties"@ || ext == "log"@);
            let config_word = ends(word, "settings"@) || ends(word, "config"@) || ends(
                word,
                "configuration"@,
            ) || ends(word, "prefs"@) || ends(word, "preferences"@) || ends(word, "options"@)
                || word == "graphics"@ || word == "graphic"@ || word == "video"@ || word
                == "audio"@ || word == "sound"@ || word == "display"@ || word == "resolution"@
                || word == "input"@ || word == "controls"@ || word == "keybinds"@ || word
                == "keybindings"@ || word == "keyboard"@ || word == "gamepad"@ || word
                == "launcher"@ || word == "hardware"@;
            let litters = litter_name || litter_ext || telemetry || unity;
            &&& staged ==> class == FileClass::Junk
            &&& !staged && shield ==> class == FileClass::SaveData
            &&& !staged && !shield && litters ==> class == FileClass::Junk
            &&& !staged && !shield && !litters && (config_ext || config_word) ==> class
                == FileClass::DeviceLocal
            &&& !staged && !shield && !litters && !config_ext && !config_word ==> class
                == FileClass::SaveData
        }),
{
    let low = lower(path@);
    a_name_reads(low, dirs, word, tail);
    no_shield_at_all(scope.shields@, word + tail);
    assert(views(scope.includes@).len() == 0);
    let segments = split_on(low, '/');
    if under_telemetry(segments) {
        let i = choose|i: int| 0 <= i < segments.len() - 1 && junk_segment(#[trigger] segments[i]);
        assert(segments[i] == "shadervariantanalytics"@ || segments[i] == "crashreportclient"@);
    }
    if exists|i: int|
        0 <= i < segments.len() - 1 && (#[trigger] segments[i] == "shadervariantanalytics"@
            || segments[i] == "crashreportclient"@) {
        let i = choose|i: int|
            0 <= i < segments.len() - 1 && (#[trigger] segments[i] == "shadervariantanalytics"@
                || segments[i] == "crashreportclient"@);
        assert(junk_segment(segments[i]));
    }
}

/// Junk alone stays out of a snapshot. A restore writes save data always, the machine's own files
/// only with the switch on, and junk never. By default the switch is off, wide open it is on, and
/// either way nothing is shielded or left out by name.
pub proof fn what_a_class_is_good_for(
    class: FileClass,
    allow: bool,
    backed_up: bool,
    restored: bool,
    start: RestoreGate,
    open: RestoreGate,
    wide: Scope<'_>,
)
    requires
        call_ensures(FileClass::is_backed_up, (class,), backed_up),
        call_ensures(FileClass::is_restored, (class, allow), restored),
        call_ensures(RestoreGate::default, (), start),
        call_ensures(RestoreGate::permissive, (), open),
        call_ensures(Scope::default, (), wide),
    ensures
        backed_up <==> class == FileClass::SaveData || class == FileClass::DeviceLocal,
        restored <==> class == FileClass::SaveData || (class == FileClass::DeviceLocal && allow),
        !start.allow_device_local && open.allow_device_local,
        start.shields@.len() == 0 && open.shields@.len() == 0 && wide.shields@.len() == 0,
        start.includes@.len() == 0 && open.includes@.len() == 0 && wide.includes@.len() == 0,
{
}

/// A gate lets exactly those files through that a restore with its switch writes, as its two lists
/// classify them.
pub proof fn a_gate_goes_by_the_class(
    gate: RestoreGate,
    path: &str,
    scope: Scope<'_>,
    class: FileClass,
    allowed: bool,
)
    requires
        call_ensures(RestoreGate::allows, (&gate, path), allowed),
        call_ensures(RestoreGate::scope, (&gate,), scope),
        call_ensures(classify, (path, scope), class),
    ensures
        scope.shields@ == gate.shields@,
        scope.includes@ == gate.includes@,
        allowed <==> class == FileClass::SaveData || (class == FileClass::DeviceLocal
            && gate.allow_device_local),
{
}

/// A file outside a list that names files is junk whatever it is called. On a list of one entry
/// without wildcards, that is every file but the entry's own and those beneath it.
pub proof fn a_list_admits_what_it_names(
    path: &str,
    scope: Scope<'_>,
    class: FileClass,
    includes: &[String],
    named: bool,
)
    requires
        call_ensures(classify, (path, scope), class),
        call_ensures(included, (includes, path), named),
        scope.includes@ == includes@,
    ensures
        !named ==> class == FileClass::Junk,
        includes@.len() == 0 ==> named,
        includes@.len() == 1 && is_literal(includes@[0]@) && path@ == includes@[0]@ ==> named,
        includes@.len() == 1 && is_literal(includes@[0]@) && begins(
            path@,
            includes@[0]@.push('/'),
        ) ==> named,
        includes@.len() == 1 && is_literal(includes@[0]@) && named ==> path@ == includes@[0]@
            || begins(path@, includes@[0]@.push('/')),
{
    if includes@.len() == 1 && is_literal(includes@[0]@) {
        let entry = includes@[0]@;
        assert(views(includes@)[0] == entry);
        a_literal_covers_itself(entry, path@);
    }
}

/// A pattern without wildcards covers the path it spells and what lies beneath it.
pub proof fn a_literal_covers_itself(pattern: Seq<char>, path: Seq<char>)
    requires
        is_literal(pattern),
    ensures
        covers(pattern, path) <==> path == pattern || begins(path, pattern.push('/')),
    decreases pattern.len(),
{
    let p = split_on(pattern, '/');
    let s = split_on(path, '/');
    assert forall|k: int, n: Seq<char>| 0 <= k < p.len() implies (#[trigger] globs(p[k], n) <==> p[k]
        == n) by {
        split_adds_nothing(pattern, '/', k);
        assert(is_literal(p[k])) by {
            if p[k].contains('*') {
                assert(pattern.contains('*'));
            }
            if p[k].contains('?') {
                assert(pattern.contains('?'));
            }
        }
        literal_patterns_match_themselves(p[k], n);
    }
    if path == pattern {
        assert forall|i: int| 0 <= i < p.len() implies globs(#[trigger] p[i], s[i]) by {}
        assert(covers(pattern, path));
    }
    if begins(path, pattern.push('/')) {
        let rest = path.skip(pattern.len() as int + 1);
        assert(path =~= pattern.push('/') + rest);
        split_joins(pattern, '/', rest);
        assert forall|i: int| 0 <= i < p.len() implies globs(#[trigger] p[i], s[i]) by {
            assert(s[i] == p[i]);
        }
        assert(covers(pattern, path));
    }
    if covers(pattern, path) {
        assert forall|i: int| 0 <= i < p.len() implies s[i] == #[trigger] p[i] by {
            assert(globs(p[i], s[i]));
        }
        same_head_same_text(pattern, path);
    }
}

/// Texts whose parts begin alike begin alike, up to a separator.
proof fn same_head_same_text(a: Seq<char>, b: Seq<char>)
    requires
        split_on(a, '/').len() <= split_on(b, '/').len(),
        forall|i: int|
            0 <= i < split_on(a, '/').len() ==> split_on(b, '/')[i] == #[trigger] split_on(a, '/')[i],
    ensures
        b == a || begins(b, a.push('/')),
    decreases a.len() + b.len(),
{
    let p = split_on(a, '/');
    let s = split_on(b, '/');
    split_is_not_empty(a, '/');
    split_is_not_empty(b, '/');
    if p.len() < s.len() {
        // `b` has a part more: what comes before its last separator still begins like `a`.
        let cut = last_at(b, '/');
        last_separator(b);
        let head = b.take(cut);
        let rest = b.skip(cut + 1);
        assert(b =~= head.push('/') + rest);
        split_joins(head, '/', rest);
        split_of_unbroken(rest, '/');
        assert(split_on(rest, '/') =~= seq![rest]);
        let h = split_on(head, '/');
        assert(s =~= h + seq![rest]);
        assert forall|i: int| 0 <= i < p.len() implies h[i] == #[trigger] p[i] by {
            assert(s[i] == p[i]);
        }
        same_head_same_text(a, head);
        if head == a {
            assert(b.take(a.len() as int + 1) =~= a.push('/'));
        } else {
            assert(b.take(a.len() as int + 1) =~= head.take(a.len() as int + 1));
        }
    } else {
        assert(p =~= s);
        split_is_told_by_its_parts(a, b);
    }
}

proof fn last_separator(b: Seq<char>)
    requires
        split_on(b, '/').len() > 1,
    ensures
        0 <= last_at(b, '/') < b.len(),
        b[last_at(b, '/')] == '/',
        !b.skip(last_at(b, '/') + 1).contains('/'),
    decreases b.len(),
{
    assert(b.len() > 0);
    if b.last() != '/' {
        let d = b.drop_last();
        split_is_not_empty(d, '/');
        assert(split_on(b, '/').len() == split_on(d, '/').len());
        last_separator(d);
        let cut = last_at(d, '/');
        assert(b[cut] == d[cut]);
        assert forall|c: int| 0 <= c < b.skip(cut + 1).len() implies #[trigger] b.skip(cut + 1)[c]
            != '/' by {
            if c < d.skip(cut + 1).len() {
                assert(d.skip(cut + 1)[c] == b.skip(cut + 1)[c]);
                assert(d.skip(cut + 1).contains(d.skip(cut + 1)[c]));
            }
        }
    } else {
        assert(b.skip(b.len() as int).len() == 0);
    }
}

proof fn split_is_told_by_its_parts(a: Seq<char>, b: Seq<char>)
    requires
        split_on(a, '/') == split_on(b, '/'),
    ensures
        a == b,
    decreases a.len() + b.len(),
{
    let p = split_on(a, '/');
    split_is_not_empty(a, '/');
    split_is_not_empty(b, '/');
    if p.len() > 1 {
        last_separator(a);
        last_separator(b);
        let (i, j) = (last_at(a, '/'), last_at(b, '/'));
        let (a1, a2) = (a.take(i), a.skip(i + 1));
        let (b1, b2) = (b.take(j), b.skip(j + 1));
        assert(a =~= a1.push('/') + a2);
        assert(b =~= b1.push('/') + b2);
        split_joins(a1, '/', a2);
        split_joins(b1, '/', b2);
        split_of_unbroken(a2, '/');
        split_of_unbroken(b2, '/');
        assert(split_on(a, '/') =~= split_on(a1, '/') + seq![a2]);
        assert(split_on(b, '/') =~= split_on(b1, '/') + seq![b2]);
        assert(p.last() == a2 && split_on(b, '/').last() == b2);
        assert(p.drop_last() =~= split_on(a1, '/'));
        assert(split_on(b, '/').drop_last() =~= split_on(b1, '/'));
        split_is_told_by_its_parts(a1, b1);
    } else {
        unbroken(a);
        unbroken(b);
        split_of_unbroken(a, '/');
        split_of_unbroken(b, '/');
        assert(p[0] == a && split_on(b, '/')[0] == b);
    }
}

proof fn unbroken(a: Seq<char>)
    requires
        split_on(a, '/').len() <= 1,
    ensures
        !a.contains('/'),
    decreases a.len(),
{
    if a.len() > 0 {
        split_is_not_empty(a.drop_last(), '/');
        unbroken(a.drop_last());
        if a.contains('/') {
            let k = choose|k: int| 0 <= k < a.len() && a[k] == '/';
            assert(k < a.len() - 1);
            assert(a.drop_last()[k] == '/');
        }
    }
}


/// A file below a folder that the list names without wildcards is mirrored, with or without a slash
/// behind the folder's name; a list of nothing mirrors nothing.
pub proof fn below_a_named_folder_is_mirrored(
    includes: &[String],
    path: &str,
    folder: Seq<char>,
    rest: Seq<char>,
    i: int,
    r: bool,
)
    requires
        call_ensures(in_mirrored_folder, (includes, path), r),
    ensures
        includes@.len() == 0 ==> !r,
        (0 <= i < includes@.len() && (includes@[i]@ == folder || includes@[i]@ == folder.push('/'))
            && folder.len() > 0 && folder.last() != '/' && !folder.contains('*')
            && !folder.contains('?') && path@ == folder.push('/') + rest && rest.len() > 0) ==> r,
{
    if 0 <= i < includes@.len() && (includes@[i]@ == folder || includes@[i]@ == folder.push('/'))
        && folder.len() > 0 && folder.last() != '/' && !folder.contains('*') && !folder.contains(
        '?',
    ) && path@ == folder.push('/') + rest && rest.len() > 0 {
        let list = views(includes@);
        assert(list[i] == includes@[i]@);
        assert(folder.push('/').drop_last() =~= folder);
        assert(without_tail(folder, '/') == folder);
        assert(without_tail(folder.push('/'), '/') == folder);
        if folder.push('/').contains('*') {
            let k = choose|k: int|
                0 <= k < folder.push('/').len() && folder.push('/')[k] == '*';
            assert(folder[k] == '*');
        }
        if folder.push('/').contains('?') {
            let k = choose|k: int|
                0 <= k < folder.push('/').len() && folder.push('/')[k] == '?';
            assert(folder[k] == '?');
        }
        assert(path@.take(folder.len() as int + 1) =~= folder.push('/'));
        assert(outright(list[i]) && beneath(list[i], path@));
    }
}

/// A version replaces what lies in a mirrored folder always, and what lies nowhere in the list
/// never; the folder itself only where the version holds it.
pub proof fn a_version_replaces_what_is_mirrored(
    includes: &[String],
    path: &str,
    inside: bool,
    with: bool,
    without: bool,
)
    requires
        call_ensures(in_mirrored_folder, (includes, path), inside),
        call_ensures(replaced_by_version, (includes, path, true), with),
        call_ensures(replaced_by_version, (includes, path, false), without),
    ensures
        inside ==> with && without,
        without ==> inside,
        with && !inside ==> includes@.len() > 0,
{
}

/// The copies that a restore stages are known by what their names end in, in any case.
pub proof fn a_staged_copy_is_known_by_its_end(path: &str, low: Seq<char>, r: bool)
    requires
        call_ensures(is_restore_tmp, (path,), r),
    ensures
        lower(path@) == low + ".hoard-restore.tmp"@ ==> r,
        r ==> exists|head: Seq<char>| lower(path@) == #[trigger] (head + ".hoard-restore.tmp"@),
{
    let tail = ".hoard-restore.tmp"@;
    let all = lower(path@);
    if all == low + tail {
        assert(all.skip(all.len() - tail.len()) =~= tail);
    }
    if r {
        let head = all.take(all.len() - tail.len());
        assert(all =~= head + tail);
    }
}

/// A pattern that matches everything is no shield, nor is an empty one; any other is.
pub proof fn what_matches_everything_shields_nothing(pattern: &str, r: bool)
    requires
        call_ensures(is_useful_shield, (pattern,), r),
    ensures
        ({
            let p = trimmed(pattern@);
            r <==> p.len() > 0 && p != "*"@ && p != "*.*"@ && p != "?"@ && p != "**"@
        }),
{
    let p = trimmed(pattern@);
    reveal_strlit("*");
    reveal_strlit("*.*");
    reveal_strlit("?");
    reveal_strlit("**");
    if p == "*"@ || p == "*.*"@ || p == "**"@ {
        assert(p[0] == '*');
    }
    if p == "?"@ {
        assert(p[0] == '?');
    }
    if p.len() == 0 {
        assert(!p.contains('*') && !p.contains('?'));
    }
}

/// Unity's analytics lie in a folder of that name, somewhere below one of Unity's; the file's own
/// name does not count.
pub proof fn analytics_lie_below_unity(segments: Vec<String>, u: int, i: int, r: bool)
    requires
        call_ensures(is_under_unity_analytics, (&segments,), r),
    ensures
        0 <= u < i < segments@.len() - 1 && segments@[u]@ == "unity"@ && segments@[i]@
            == "analytics"@ ==> r,
        segments@.len() < 3 ==> !r,
        (forall|k: int| 0 <= k < segments@.len() - 1 ==> (#[trigger] segments@[k])@ != "unity"@)
            ==> !r,
        (forall|k: int| 0 <= k < segments@.len() - 1 ==> (#[trigger] segments@[k])@ != "analytics"@)
            ==> !r,
{
    let list = views(segments@);
    if 0 <= u < i < segments@.len() - 1 {
        assert(list[u] == segments@[u]@ && list[i] == segments@[i]@);
    }
    if r {
        let (a, b) = choose|a: int, b: int|
            0 <= a < b < list.len() - 1 && #[trigger] list[a] == "unity"@ && #[trigger] list[b]
                == "analytics"@;
        assert(list[a] == segments@[a]@ && list[b] == segments@[b]@);
    }
}

} // verus!
