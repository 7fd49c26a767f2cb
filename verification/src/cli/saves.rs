//! `hoard saves`: the saves that this machine tracks. Local, so that it works offline; the one
//! exception is who hosts a shared save, which the resident service is asked for and which is left
//! out when there is none.

use vstd::prelude::*;

use crate::agent::idmap::IdMap;
use crate::agent::slot::{CliState, SaveState};
use crate::cli::order::{order_by, Key};
#[allow(unused_imports)]
use crate::cli::order::{is_order, names};
use crate::cli::output::truncate;
#[allow(unused_imports)]
use crate::cli::output::cut;
#[allow(unused_imports)]
use crate::cli::status::save_names;
#[allow(unused_imports)]
use crate::cli::world::from_here;
use crate::cli::world::same_device;
use crate::clock::format_rfc3339;
#[allow(unused_imports)]
use crate::clock::rfc3339_text;
use crate::text::{chars_of, decimal, first_chars, pad, pad_left, signed_decimal};
#[allow(unused_imports)]
use crate::text::{digits, first, padded, padded_left, signed_digits, views};
use crate::wire::{clone_text, Lease};

verus! {

/// One tracked save as agents and scripts see it.
#[derive(Debug)]
pub struct SaveRow {
    pub save_id: String,
    pub game_slug: String,
    pub label: String,
    /// Absolute and whole. A table may clip what it shows; this is not clipped.
    pub local_path: String,
    pub paused: bool,
    pub last_version_num: Option<i64>,
    /// RFC 3339, or none when this save has never been backed up.
    pub last_backup_at: Option<String>,
    pub preset: Option<String>,
    /// The group that this save is shared into.
    pub group: Option<String>,
    /// "hosted here" or "hosted by <name>" while somebody holds a live lease on a shared save.
    /// None when nobody does, or with no service to ask.
    pub hosted: Option<String>,
    /// The word for the lease, where the service's engine has one.
    pub lease: Option<&'static str>,
}

#[derive(Debug)]
pub struct SavesOut {
    pub saves: Vec<SaveRow>,
    pub state_file: String,
}

/// Who hosts a shared save, by its lease: a live one from this machine, or anybody else's.
pub open spec fn hosted_by(lease: Option<Lease>, my_fp: Seq<char>) -> Option<Seq<char>> {
    match lease {
        Some(l) => if !l.live {
            None
        } else if from_here(l, my_fp) {
            Some("hosted here"@)
        } else {
            Some("hosted by "@ + l.holder_username@)
        },
        None => None,
    }
}

/// Who hosts a shared save, while somebody does.
pub fn hosted(lease: Option<&Lease>, my_fp: &str) -> (r: Option<String>)
    ensures
        ({
            let by = hosted_by(
                match lease {
                    Some(l) => Some(*l),
                    None => None,
                },
                my_fp@,
            );
            r is Some == by is Some && (r is Some ==> by == Some(r->0@))
        }),
{
    match lease {
        Some(l) => {
            if !l.live {
                None
            } else if same_device(l, my_fp) {
                Some("hosted here".to_owned())
            } else {
                let mut s = "hosted by ".to_owned();
                s.append(l.holder_username.as_str());
                Some(s)
            }
        },
        None => None,
    }
}

/// Is this the save's row?
pub open spec fn is_row(
    r: SaveRow,
    e: (String, SaveState),
    hosts: Map<Seq<char>, String>,
) -> bool {
    &&& r.save_id == e.0
    &&& r.game_slug == e.1.game_slug
    &&& r.label == e.1.label
    &&& r.local_path == e.1.local_path
    &&& r.paused == e.1.paused
    &&& r.last_version_num == e.1.last_version_num
    &&& match e.1.last_backup_at {
        Some(at) => r.last_backup_at is Some == rfc3339_text(at) is Some && (
        r.last_backup_at is Some ==> rfc3339_text(at) == Some(r.last_backup_at->0@)),
        None => r.last_backup_at is None,
    }
    &&& r.preset == e.1.preset
    &&& r.group == (match e.1.shared {
        Some(s) => Some(s.group_name),
        None => None,
    })
    &&& r.hosted == (if hosts.contains_key(e.0@) {
        Some(hosts[e.0@])
    } else {
        None
    })
    &&& r.lease is None
}

fn row(e: &(String, SaveState), hosts: &IdMap<String>) -> (r: SaveRow)
    ensures
        is_row(r, *e, hosts@),
{
    let s = &e.1;
    SaveRow {
        save_id: e.0.clone(),
        game_slug: s.game_slug.clone(),
        label: s.label.clone(),
        local_path: s.local_path.clone(),
        paused: s.paused,
        last_version_num: s.last_version_num,
        last_backup_at: match s.last_backup_at {
            Some(at) => format_rfc3339(at),
            None => None,
        },
        preset: clone_text(&s.preset),
        group: match &s.shared {
            Some(g) => Some(g.group_name.clone()),
            None => None,
        },
        hosted: match hosts.get(e.0.as_str()) {
            Some(h) => Some(h.clone()),
            None => None,
        },
        lease: None,
    }
}

/// Are these the rows of the saves in this order?
pub open spec fn rows_in(
    rows: Seq<SaveRow>,
    saves: Seq<(String, SaveState)>,
    hosts: Map<Seq<char>, String>,
    order: Seq<usize>,
) -> bool {
    &&& is_order(order, save_names(saves))
    &&& rows.len() == saves.len()
    &&& forall|i: int|
        0 <= i < rows.len() ==> is_row(#[trigger] rows[i], saves[order[i] as int], hosts)
}

/// The tracked saves, sorted by game and label. `hosts` holds who hosts which shared save.
pub fn saves(state: &CliState, hosts: &IdMap<String>, state_file: String) -> (r: SavesOut)
    ensures
        exists|order: Seq<usize>| #[trigger] rows_in(r.saves@, state.saves@, hosts@, order),
        r.state_file == state_file,
{
    let mut keys: Vec<Key<'_>> = Vec::new();
    let mut i: usize = 0;
    while i < state.saves.len()
        invariant
            i <= state.saves@.len(),
            keys@.len() == i,
            forall|k: int|
                0 <= k < i ==> (#[trigger] keys@[k]).game_slug@ == state.saves@[k].1.game_slug@
                    && keys@[k].label@ == state.saves@[k].1.label@,
        decreases state.saves.len() - i,
    {
        let s: &SaveState = &state.saves[i].1;
        keys.push(Key { game_slug: s.game_slug.as_str(), label: s.label.as_str() });
        i += 1;
    }
    let order = order_by(&keys);
    assert(names(keys@) =~= save_names(state.saves@));
    let mut rows: Vec<SaveRow> = Vec::new();
    let mut j: usize = 0;
    while j < order.len()
        invariant
            j <= order@.len(),
            is_order(order@, save_names(state.saves@)),
            rows@.len() == j,
            forall|k: int|
                0 <= k < j ==> is_row(
                    #[trigger] rows@[k],
                    state.saves@[order@[k] as int],
                    hosts@,
                ),
        decreases order.len() - j,
    {
        let at: usize = order[j];
        rows.push(row(&state.saves[at], hosts));
        j += 1;
    }
    let out = SavesOut { saves: rows, state_file };
    assert(rows_in(out.saves@, state.saves@, hosts@, order@));
    out
}

// ---- the table

/// A moment's date and time of day, without its offset.
pub open spec fn short_moment(t: Seq<char>) -> Seq<char> {
    let head = first(t, 19);
    Seq::new(
        head.len(),
        |i: int|
            if head[i] == 'T' {
                ' '
            } else {
                head[i]
            },
    )
}

fn shorten(t: &str) -> (r: String)
    ensures
        r@ == short_moment(t@),
{
    let head = first_chars(t, 19);
    let c = chars_of(head.as_str());
    let mut r = String::new();
    let mut i: usize = 0;
    while i < c.len()
        invariant
            i <= c.len(),
            c@ == first(t@, 19),
            r@ == short_moment(t@).take(i as int),
        decreases c.len() - i,
    {
        r.push(if c[i] == 'T' { ' ' } else { c[i] });
        i += 1;
        assert(r@ =~= short_moment(t@).take(i as int));
    }
    assert(short_moment(t@).take(i as int) =~= short_moment(t@));
    r
}

/// A cell that may have nothing in it.
pub open spec fn or_dash(cell: Option<Seq<char>>) -> Seq<char> {
    match cell {
        Some(c) => c,
        None => "—"@,
    }
}

/// The cell of the hosts' column, where there is one.
pub open spec fn host_cell(cell: Seq<char>, column: bool) -> Seq<char> {
    if column {
        padded(cell, 16) + "  "@
    } else {
        Seq::empty()
    }
}

/// One line of the table, from its cells.
pub open spec fn cells(
    game: Seq<char>,
    label: Seq<char>,
    version: Seq<char>,
    last: Seq<char>,
    state: Seq<char>,
    group: Seq<char>,
    host: Seq<char>,
    path: Seq<char>,
) -> Seq<char> {
    padded(game, 24) + "  "@ + padded(label, 10) + "  "@ + padded_left(version, 6) + "  "@
        + padded(last, 20) + "  "@ + padded(state, 8) + "  "@ + padded(group, 12) + "  "@ + host
        + path
}

/// The head of the table.
pub open spec fn head_line(column: bool) -> Seq<char> {
    cells(
        "GAME"@,
        "LABEL"@,
        "VER"@,
        "LAST"@,
        "STATE"@,
        "GROUP"@,
        host_cell("HOST"@, column),
        "PATH"@,
    )
}

/// A save's line in the table.
pub open spec fn save_line(s: SaveRow, column: bool) -> Seq<char> {
    cells(
        cut(s.game_slug@, 24),
        cut(s.label@, 10),
        or_dash(
            match s.last_version_num {
                Some(v) => Some("v"@ + signed_digits(v as int)),
                None => None,
            },
        ),
        or_dash(
            match s.last_backup_at {
                Some(t) => Some(short_moment(t@)),
                None => None,
            },
        ),
        if s.paused {
            "paused"@
        } else {
            "active"@
        },
        or_dash(
            match s.group {
                Some(g) => Some(cut(g@, 12)),
                None => None,
            },
        ),
        host_cell(
            or_dash(
                match s.hosted {
                    Some(h) => Some(cut(h@, 16)),
                    None => None,
                },
            ),
            column,
        ),
        s.local_path@,
    )
}

fn host_text(cell: &str, column: bool) -> (r: String)
    ensures
        r@ == host_cell(cell@, column),
{
    if column {
        let mut r = pad(cell, 16);
        r.append("  ");
        r
    } else {
        let r = String::new();
        assert(r@ =~= Seq::<char>::empty());
        r
    }
}

fn cells_text(
    game: &str,
    label: &str,
    version: &str,
    last: &str,
    state: &str,
    group: &str,
    host: &str,
    path: &str,
) -> (r: String)
    ensures
        r@ == cells(game@, label@, version@, last@, state@, group@, host@, path@),
{
    let mut r = pad(game, 24);
    r.append("  ");
    r.append(pad(label, 10).as_str());
    r.append("  ");
    r.append(pad_left(version, 6).as_str());
    r.append("  ");
    r.append(pad(last, 20).as_str());
    r.append("  ");
    r.append(pad(state, 8).as_str());
    r.append("  ");
    r.append(pad(group, 12).as_str());
    r.append("  ");
    r.append(host);
    r.append(path);
    r
}

fn line(s: &SaveRow, column: bool) -> (r: String)
    ensures
        r@ == save_line(*s, column),
{
    let version = match s.last_version_num {
        Some(v) => {
            let mut t = "v".to_owned();
            t.append(signed_decimal(v).as_str());
            t
        },
        None => "—".to_owned(),
    };
    let last = match &s.last_backup_at {
        Some(t) => shorten(t.as_str()),
        None => "—".to_owned(),
    };
    let state = if s.paused {
        "paused"
    } else {
        "active"
    };
    let group = match &s.group {
        Some(g) => truncate(g.as_str(), 12),
        None => "—".to_owned(),
    };
    let host = match &s.hosted {
        Some(h) => truncate(h.as_str(), 16),
        None => "—".to_owned(),
    };
    cells_text(
        truncate(s.game_slug.as_str(), 24).as_str(),
        truncate(s.label.as_str(), 10).as_str(),
        version.as_str(),
        last.as_str(),
        state,
        group.as_str(),
        host_text(host.as_str(), column).as_str(),
        s.local_path.as_str(),
    )
}

/// What is under the table.
pub open spec fn foot_line(out: SavesOut) -> Seq<char> {
    digits(out.saves@.len()) + " save(s) · "@ + out.state_file@
}

/// Are these the lines of the table?
pub open spec fn is_table(lines: Seq<Seq<char>>, out: SavesOut, column: bool) -> bool {
    let n = out.saves@.len() as int;
    if n == 0 {
        lines == seq![
            "you don't track any save on this machine."@,
            "Add one with `hoard track \"<game>\"`."@,
        ]
    } else {
        &&& lines.len() == n + 3
        &&& lines[0] == head_line(column)
        &&& forall|i: int| 0 <= i < n ==> #[trigger] lines[i + 1] == save_line(out.saves@[i], column)
        &&& lines[n + 1] == Seq::<char>::empty()
        &&& lines[n + 2] == foot_line(out)
    }
}

/// The tracked saves as a table. The hosts' column is there when a service was asked: no column
/// rather than one of dashes that claims nobody hosts.
pub fn table(out: &SavesOut, host_column: bool) -> (r: Vec<String>)
    ensures
        is_table(views(r@), *out, host_column),
{
    let mut lines: Vec<String> = Vec::new();
    if out.saves.len() == 0 {
        lines.push("you don't track any save on this machine.".to_owned());
        lines.push("Add one with `hoard track \"<game>\"`.".to_owned());
        assert(views(lines@) =~= seq![
            "you don't track any save on this machine."@,
            "Add one with `hoard track \"<game>\"`."@,
        ]);
        return lines;
    }
    lines.push(
        cells_text(
            "GAME",
            "LABEL",
            "VER",
            "LAST",
            "STATE",
            "GROUP",
            host_text("HOST", host_column).as_str(),
            "PATH",
        ),
    );
    let mut i: usize = 0;
    while i < out.saves.len()
        invariant
            i <= out.saves@.len(),
            lines@.len() == i + 1,
            lines@[0]@ == head_line(host_column),
            forall|k: int|
                0 <= k < i ==> (#[trigger] lines@[k + 1])@ == save_line(
                    out.saves@[k],
                    host_column,
                ),
        decreases out.saves.len() - i,
    {
        lines.push(line(&out.saves[i], host_column));
        i += 1;
    }
    lines.push(String::new());
    let mut foot = decimal(out.saves.len() as u64);
    foot.append(" save(s) · ");
    foot.append(out.state_file.as_str());
    lines.push(foot);
    proof {
        let v = views(lines@);
        let n = out.saves@.len() as int;
        assert(v[n + 1] =~= Seq::<char>::empty());
        assert(v[n + 2] =~= foot_line(*out));
        assert forall|k: int| 0 <= k < n implies #[trigger] v[k + 1] == save_line(
            out.saves@[k],
            host_column,
        ) by {
            assert(lines@[k + 1]@ == save_line(out.saves@[k], host_column));
        }
    }
    lines
}


// ---- laws

/// Who hosts a save: nobody without a live lease, this machine where the lease is from here, and
/// else the holder by name.
pub proof fn a_live_lease_has_a_host(l: Lease, my_fp: &str, r: Option<String>, none: Option<String>)
    requires
        call_ensures(hosted, (Some(&l), my_fp), r),
        call_ensures(hosted, (None, my_fp), none),
    ensures
        none is None,
        !l.live ==> r is None,
        l.live && l.holder_device_fp is Some && l.holder_device_fp->0@ == my_fp@ ==> r is Some
            && r->0@ == "hosted here"@,
        l.live && !(l.holder_device_fp is Some && l.holder_device_fp->0@ == my_fp@) ==> r is Some
            && r->0@ == "hosted by "@ + l.holder_username@,
{
}

/// Every tracked save has one row, with what the state has of it, its group's name and its host.
pub proof fn a_tracked_save_has_its_row(
    state: CliState,
    hosts: IdMap<String>,
    state_file: String,
    r: SavesOut,
    i: int,
)
    requires
        call_ensures(saves, (&state, &hosts, state_file), r),
        0 <= i < r.saves@.len(),
    ensures
        r.state_file == state_file,
        r.saves@.len() == state.saves@.len(),
        exists|k: int|
            0 <= k < state.saves@.len() && {
                let s = #[trigger] state.saves@[k];
                let row = r.saves@[i];
                &&& row.save_id == s.0 && row.game_slug == s.1.game_slug && row.label == s.1.label
                &&& row.local_path == s.1.local_path && row.paused == s.1.paused
                    && row.last_version_num == s.1.last_version_num && row.preset == s.1.preset
                &&& s.1.last_backup_at is None ==> row.last_backup_at is None
                &&& s.1.shared is Some ==> row.group == Some(s.1.shared->0.group_name)
                &&& s.1.shared is None ==> row.group is None
                &&& hosts@.contains_key(s.0@) ==> row.hosted == Some(hosts@[s.0@])
                &&& !hosts@.contains_key(s.0@) ==> row.hosted is None
                &&& row.lease is None
            },
{
    let order = choose|order: Seq<usize>| #[trigger]
        rows_in(r.saves@, state.saves@, hosts@, order);
    assert(rows_in(r.saves@, state.saves@, hosts@, order));
    let k = order[i] as int;
    assert(is_row(r.saves@[i], state.saves@[k], hosts@));
    assert(0 <= k < state.saves@.len());
}

/// A table has a head, a line for each save and a count below. A save's line starts with its game
/// and ends in its whole path.
pub proof fn a_table_of_saves(out: SavesOut, column: bool, r: Vec<String>, i: int)
    requires
        call_ensures(table, (&out, column), r),
        out.saves@.len() > 0,
        0 <= i < out.saves@.len(),
    ensures
        r@.len() == out.saves@.len() + 3,
        r@.last()@ == digits(out.saves@.len()) + " save(s) · "@ + out.state_file@,
        r@[out.saves@.len() as int + 1]@.len() == 0,
        r@[i + 1]@ == padded(cut(out.saves@[i].game_slug@, 24), 24) + "  "@ + padded(
            cut(out.saves@[i].label@, 10),
            10,
        ) + "  "@ + padded_left(
            if out.saves@[i].last_version_num is Some {
                "v"@ + signed_digits(out.saves@[i].last_version_num->0 as int)
            } else {
                "—"@
            },
            6,
        ) + "  "@ + padded(
            if out.saves@[i].last_backup_at is Some {
                short_moment(out.saves@[i].last_backup_at->0@)
            } else {
                "—"@
            },
            20,
        ) + "  "@ + padded(
            if out.saves@[i].paused {
                "paused"@
            } else {
                "active"@
            },
            8,
        ) + "  "@ + padded(
            if out.saves@[i].group is Some {
                cut(out.saves@[i].group->0@, 12)
            } else {
                "—"@
            },
            12,
        ) + "  "@ + (if column {
            padded(
                if out.saves@[i].hosted is Some {
                    cut(out.saves@[i].hosted->0@, 16)
                } else {
                    "—"@
                },
                16,
            ) + "  "@
        } else {
            Seq::empty()
        }) + out.saves@[i].local_path@,
{
    let v = views(r@);
    let n = out.saves@.len() as int;
    assert(v.len() == r@.len());
    assert(v[i + 1] == r@[i + 1]@);
    assert(v[n + 1] == r@[n + 1]@);
    assert(v[n + 2] == r@[n + 2]@);
    assert(v[i + 1] == save_line(out.saves@[i], column));
}

} // verus!
