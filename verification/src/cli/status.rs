//! `hoard status`: the server's health, and the saves that this machine shares.

use vstd::prelude::*;

use crate::agent::slot::{CliState, SaveState};
use crate::cli::order::{order_by, Key};
#[allow(unused_imports)]
use crate::cli::order::{is_order, names, Names};
use crate::cli::output::Failure;
use crate::cli::world::Hosts;
#[allow(unused_imports)]
use crate::cli::world::{cell_of, lease_in, tag_of};
use crate::text::decimal;
#[allow(unused_imports)]
use crate::agent::slot::WorldLease;
#[allow(unused_imports)]
use crate::text::{digits, views};

verus! {

#[derive(Debug)]
pub struct StatusOut {
    pub server: String,
    pub status: String,
    pub version: String,
    pub uptime_secs: u64,
    /// The saves that this machine shares, with who hosts each.
    pub shared: Vec<SharedRow>,
}

/// One shared save on this machine.
#[derive(Debug)]
pub struct SharedRow {
    pub save_id: String,
    pub game_slug: String,
    pub label: String,
    pub group: String,
    /// Who hosts it. None with no service to ask.
    pub hosted: Option<String>,
    /// "mine", "other", "free" or "unknown"; there exactly when `hosted` is.
    pub lease: Option<&'static str>,
}

/// The saves that are shared, in the order of the state.
pub open spec fn shared_only(saves: Seq<(String, SaveState)>) -> Seq<(String, SaveState)>
    decreases saves.len(),
{
    if saves.len() == 0 {
        Seq::empty()
    } else if saves.last().1.shared is Some {
        shared_only(saves.drop_last()).push(saves.last())
    } else {
        shared_only(saves.drop_last())
    }
}

/// The games and labels of saves.
pub open spec fn save_names(saves: Seq<(String, SaveState)>) -> Seq<Names> {
    Seq::new(saves.len(), |i: int| (saves[i].1.game_slug@, saves[i].1.label@))
}

/// A shared save's row, its host unknown.
pub open spec fn row_of(e: (String, SaveState)) -> SharedRow {
    SharedRow {
        save_id: e.0,
        game_slug: e.1.game_slug,
        label: e.1.label,
        group: e.1.shared->0.group_name,
        hosted: None,
        lease: None,
    }
}

/// Are these the rows of the shared saves in this order?
pub open spec fn rows_in(
    rows: Seq<SharedRow>,
    saves: Seq<(String, SaveState)>,
    order: Seq<usize>,
) -> bool {
    let shared = shared_only(saves);
    &&& is_order(order, save_names(shared))
    &&& rows.len() == shared.len()
    &&& forall|i: int|
        0 <= i < rows.len() ==> #[trigger] rows[i] == row_of(shared[order[i] as int])
}

fn shared_row(e: &(String, SaveState)) -> (r: SharedRow)
    requires
        e.1.shared is Some,
    ensures
        r == row_of(*e),
{
    let group = match &e.1.shared {
        Some(s) => s.group_name.clone(),
        None => String::new(),
    };
    SharedRow {
        save_id: e.0.clone(),
        game_slug: e.1.game_slug.clone(),
        label: e.1.label.clone(),
        group,
        hosted: None,
        lease: None,
    }
}

/// The shared rows of a state load, sorted by game and label, hosts unknown. A load that failed is
/// no shared saves: health needs no local state.
pub fn shared_in(loaded: Result<CliState, Failure>) -> (r: Vec<SharedRow>)
    ensures
        match loaded {
            Ok(state) => exists|order: Seq<usize>| #[trigger] rows_in(r@, state.saves@, order),
            Err(_) => r@.len() == 0,
        },
{
    let state = match loaded {
        Ok(state) => state,
        Err(_) => {
            return Vec::new();
        },
    };
    let ghost saves = state.saves@;
    let ghost shared = shared_only(saves);
    let mut found: Vec<&(String, SaveState)> = Vec::new();
    let mut keys: Vec<Key<'_>> = Vec::new();
    let mut i: usize = 0;
    assert(saves.take(0) =~= Seq::<(String, SaveState)>::empty());
    while i < state.saves.len()
        invariant
            i <= state.saves@.len(),
            saves == state.saves@,
            found@.len() == shared_only(saves.take(i as int)).len(),
            forall|k: int|
                0 <= k < found@.len() ==> *(#[trigger] found@[k]) == shared_only(
                    saves.take(i as int),
                )[k] && found@[k].1.shared is Some,
            keys@.len() == found@.len(),
            forall|k: int|
                0 <= k < keys@.len() ==> (#[trigger] keys@[k]).game_slug@
                    == found@[k].1.game_slug@ && keys@[k].label@ == found@[k].1.label@,
        decreases state.saves.len() - i,
    {
        assert(saves.take(i + 1).drop_last() =~= saves.take(i as int));
        let e: &(String, SaveState) = &state.saves[i];
        if e.1.shared.is_some() {
            found.push(e);
            keys.push(Key { game_slug: e.1.game_slug.as_str(), label: e.1.label.as_str() });
        }
        i += 1;
    }
    assert(saves.take(i as int) =~= saves);
    let order = order_by(&keys);
    assert(names(keys@) =~= save_names(shared));
    let mut rows: Vec<SharedRow> = Vec::new();
    let mut j: usize = 0;
    while j < order.len()
        invariant
            j <= order@.len(),
            is_order(order@, save_names(shared)),
            found@.len() == shared.len(),
            forall|k: int|
                0 <= k < found@.len() ==> *(#[trigger] found@[k]) == shared[k]
                    && found@[k].1.shared is Some,
            rows@.len() == j,
            forall|k: int|
                0 <= k < j ==> #[trigger] rows@[k] == row_of(shared[order@[k] as int]),
        decreases order.len() - j,
    {
        let at: usize = order[j];
        rows.push(shared_row(found[at]));
        j += 1;
    }
    assert(rows_in(rows@, state.saves@, order@));
    rows
}

/// Is this the row with its host filled in?
pub open spec fn is_hosted(
    r: SharedRow,
    row: SharedRow,
    hosts: Map<Seq<char>, (Option<WorldLease>, Option<String>)>,
) -> bool {
    let lease = match lease_in(hosts, row.save_id@) {
        Some(l) => l,
        None => WorldLease::Unknown,
    };
    let holder = if hosts.contains_key(row.save_id@) && hosts[row.save_id@].1 is Some {
        Some(hosts[row.save_id@].1->0@)
    } else {
        None
    };
    &&& r.save_id == row.save_id
    &&& r.game_slug == row.game_slug
    &&& r.label == row.label
    &&& r.group == row.group
    &&& r.hosted is Some && r.hosted->0@ == cell_of(lease, holder)
    &&& r.lease is Some && r.lease->0@ == tag_of(lease)
}

/// The rows with who hosts each, from one status read of the service where there is one.
pub fn with_hosts(rows: Vec<SharedRow>, hosts: Option<&Hosts>) -> (r: Vec<SharedRow>)
    ensures
        match hosts {
            None => r@ == rows@,
            Some(h) => r@.len() == rows@.len() && forall|i: int|
                0 <= i < r@.len() ==> is_hosted(#[trigger] r@[i], rows@[i], h@),
        },
{
    let h: &Hosts = match hosts {
        Some(h) => h,
        None => {
            return rows;
        },
    };
    let mut out: Vec<SharedRow> = Vec::new();
    let mut i: usize = 0;
    while i < rows.len()
        invariant
            i <= rows@.len(),
            out@.len() == i,
            forall|k: int| 0 <= k < i ==> is_hosted(#[trigger] out@[k], rows@[k], h@),
        decreases rows.len() - i,
    {
        let row = &rows[i];
        let host = h.of(row.save_id.as_str());
        out.push(
            SharedRow {
                save_id: row.save_id.clone(),
                game_slug: row.game_slug.clone(),
                label: row.label.clone(),
                group: row.group.clone(),
                hosted: Some(host.cell),
                lease: Some(host.lease),
            },
        );
        i += 1;
    }
    out
}

/// A shared save's line.
pub open spec fn row_line(s: SharedRow) -> Seq<char> {
    let line = "shared:  "@ + s.game_slug@ + "/"@ + s.label@ + " in '"@ + s.group@ + "'"@;
    match s.hosted {
        Some(h) => line + ", "@ + h@,
        None => line,
    }
}

/// The lines before the shared saves.
pub open spec fn health_lines(o: StatusOut) -> Seq<Seq<char>> {
    seq![
        "server:  "@ + o.server@,
        "status:  "@ + o.status@,
        "version: "@ + o.version@,
        "uptime:  "@ + digits(o.uptime_secs as nat) + "s"@,
    ]
}

fn labelled(label: &str, value: &str) -> (r: String)
    ensures
        r@ == label@ + value@,
{
    let mut r = label.to_owned();
    r.append(value);
    r
}

/// The status as lines.
pub fn lines(o: &StatusOut) -> (r: Vec<String>)
    ensures
        r@.len() == o.shared@.len() + 4,
        views(r@).take(4) == health_lines(*o),
        forall|i: int|
            0 <= i < o.shared@.len() ==> (#[trigger] r@[i + 4])@ == row_line(o.shared@[i]),
{
    let mut r: Vec<String> = Vec::new();
    r.push(labelled("server:  ", o.server.as_str()));
    r.push(labelled("status:  ", o.status.as_str()));
    r.push(labelled("version: ", o.version.as_str()));
    let mut uptime = labelled("uptime:  ", decimal(o.uptime_secs).as_str());
    uptime.append("s");
    r.push(uptime);
    assert(views(r@).take(4) =~= health_lines(*o));
    let mut i: usize = 0;
    while i < o.shared.len()
        invariant
            i <= o.shared@.len(),
            r@.len() == i + 4,
            views(r@).take(4) == health_lines(*o),
            forall|k: int| 0 <= k < i ==> (#[trigger] r@[k + 4])@ == row_line(o.shared@[k]),
        decreases o.shared.len() - i,
    {
        let s = &o.shared[i];
        let mut line = "shared:  ".to_owned();
        line.append(s.game_slug.as_str());
        line.append("/");
        line.append(s.label.as_str());
        line.append(" in '");
        line.append(s.group.as_str());
        line.append("'");
        if let Some(h) = &s.hosted {
            line.append(", ");
            line.append(h.as_str());
        }
        assert(line@ =~= row_line(*s));
        let ghost was = r@;
        r.push(line);
        assert(views(r@).take(4) =~= views(was).take(4));
        i += 1;
    }
    r
}


// ---- laws

proof fn shared_come_from(saves: Seq<(String, SaveState)>, k: int)
    requires
        0 <= k < shared_only(saves).len(),
    ensures
        shared_only(saves)[k].1.shared is Some,
        saves.contains(shared_only(saves)[k]),
    decreases saves.len(),
{
    if saves.len() > 0 {
        let before = saves.drop_last();
        if k < shared_only(before).len() {
            shared_come_from(before, k);
            let i = choose|i: int| 0 <= i < before.len() && before[i] == shared_only(before)[k];
            assert(saves[i] == shared_only(saves)[k]);
        } else {
            assert(saves[saves.len() - 1] == shared_only(saves)[k]);
        }
    }
}

/// A row is of a save that is shared, with its game, its label and its group's name. Without a state
/// there are no rows.
pub proof fn a_row_is_of_a_shared_save(loaded: Result<CliState, Failure>, r: Vec<SharedRow>, i: int)
    requires
        call_ensures(shared_in, (loaded,), r),
        0 <= i < r@.len(),
    ensures
        loaded is Ok,
        r@[i].hosted is None && r@[i].lease is None,
        exists|k: int|
            0 <= k < loaded->Ok_0.saves@.len() && {
                let s = #[trigger] loaded->Ok_0.saves@[k];
                &&& s.1.shared is Some && r@[i].group == s.1.shared->0.group_name
                &&& r@[i].save_id == s.0 && r@[i].game_slug == s.1.game_slug && r@[i].label
                    == s.1.label
            },
{
    if loaded is Ok {
        let saves = loaded->Ok_0.saves@;
        let order = choose|order: Seq<usize>| #[trigger] rows_in(r@, saves, order);
        assert(rows_in(r@, saves, order));
        let at = order[i] as int;
        assert(r@[i] == row_of(shared_only(saves)[at]));
        shared_come_from(saves, at);
        let k = choose|k: int| 0 <= k < saves.len() && saves[k] == shared_only(saves)[at];
        assert(saves[k] == shared_only(saves)[at]);
    }
}

/// Hosts are filled in row by row, and nothing else of a row changes. Without a service to ask
/// nothing changes at all.
pub proof fn hosts_are_filled_in(rows: Vec<SharedRow>, hosts: Hosts, r: Vec<SharedRow>, none: Vec<SharedRow>, i: int)
    requires
        call_ensures(with_hosts, (rows, Some(&hosts)), r),
        call_ensures(with_hosts, (rows, None), none),
        0 <= i < rows@.len(),
    ensures
        none@ == rows@,
        r@.len() == rows@.len(),
        r@[i].save_id == rows@[i].save_id && r@[i].game_slug == rows@[i].game_slug && r@[i].label
            == rows@[i].label && r@[i].group == rows@[i].group,
        r@[i].hosted is Some && r@[i].lease is Some,
{
    assert(is_hosted(r@[i], rows@[i], hosts@));
}

/// The status, line by line.
pub proof fn a_status_is_told(o: StatusOut, r: Vec<String>, i: int)
    requires
        call_ensures(lines, (&o,), r),
    ensures
        r@.len() == o.shared@.len() + 4,
        r@[0]@ == "server:  "@ + o.server@,
        r@[1]@ == "status:  "@ + o.status@,
        r@[2]@ == "version: "@ + o.version@,
        r@[3]@ == "uptime:  "@ + digits(o.uptime_secs as nat) + "s"@,
        0 <= i < o.shared@.len() && o.shared@[i].hosted is Some ==> r@[i + 4]@ == "shared:  "@
            + o.shared@[i].game_slug@ + "/"@ + o.shared@[i].label@ + " in '"@ + o.shared@[i].group@
            + "'"@ + ", "@ + o.shared@[i].hosted->0@,
        0 <= i < o.shared@.len() && o.shared@[i].hosted is None ==> r@[i + 4]@ == "shared:  "@
            + o.shared@[i].game_slug@ + "/"@ + o.shared@[i].label@ + " in '"@ + o.shared@[i].group@
            + "'"@,
{
    let v = views(r@).take(4);
    assert(v[0] == r@[0]@ && v[1] == r@[1]@ && v[2] == r@[2]@ && v[3] == r@[3]@);
    if 0 <= i < o.shared@.len() {
        assert(r@[i + 4]@ == row_line(o.shared@[i]));
    }
}

} // verus!
