//! Where a save's bytes live: its owner's namespace, or its group's.
//!
//! A group is a namespace of its own, kept apart from every user's. The group's owner pays for
//! it: a charge lands on [`Namespace::billing_user`] and is mirrored into the group's own
//! counter.

use vstd::prelude::*;

use crate::server::store;
#[allow(unused_imports)]
use crate::server::store::{key_parts, key_under, one_part, shard_of, shardable};
use crate::text::same;
#[allow(unused_imports)]
use crate::text::{split_joins, split_on};

verus! {

#[derive(Debug, PartialEq, Eq)]
pub enum Namespace {
    User(String),
    Group(String),
}

/// What a namespace is, by the text of its id.
pub ghost enum Space {
    User(Seq<char>),
    Group(Seq<char>),
}

impl Space {
    /// The directory of one kind of object.
    pub open spec fn dir(self, kind: Seq<char>) -> Seq<char> {
        match self {
            Space::User(id) => kind.push('/') + id,
            Space::Group(id) => kind + "/group/"@ + id,
        }
    }

    /// The key of an object of one kind.
    pub open spec fn key(self, kind: Seq<char>, sha: Seq<char>) -> Seq<char> {
        match self {
            Space::User(id) => key_under(kind, id, sha),
            Space::Group(id) => key_under(kind + "/group"@, id, sha),
        }
    }
}

impl View for Namespace {
    type V = Space;

    open spec fn view(&self) -> Space {
        match self {
            Namespace::User(id) => Space::User(id@),
            Namespace::Group(id) => Space::Group(id@),
        }
    }
}

impl Clone for Namespace {
    fn clone(&self) -> (r: Self)
        ensures
            r@ == self@,
    {
        match self {
            Namespace::User(id) => Namespace::User(id.clone()),
            Namespace::Group(id) => Namespace::Group(id.clone()),
        }
    }
}

/// The larger of zero and a running total moved by `delta`.
pub open spec fn charged(used: int, delta: int) -> int {
    if used + delta > 0 {
        used + delta
    } else {
        0
    }
}

impl Namespace {
    /// The namespace of a save: the group's when it is shared, the owner's otherwise.
    pub fn of(owner_user_id: &str, group_id: Option<&str>) -> (r: Namespace)
        ensures
            r@ == (match group_id {
                Some(g) => Space::Group(g@),
                None => Space::User(owner_user_id@),
            }),
    {
        match group_id {
            Some(g) => Namespace::Group(g.to_owned()),
            None => Namespace::User(owner_user_id.to_owned()),
        }
    }

    pub fn blob_key(&self, sha256: &str) -> (r: String)
        requires
            shardable(sha256@),
        ensures
            r@ == self@.key("blobs"@, sha256@),
    {
        match self {
            Namespace::User(id) => store::blob_key(id.as_str(), sha256),
            Namespace::Group(id) => {
                let mut root = "blobs".to_owned();
                root.append("/group");
                store::key(root.as_str(), id.as_str(), sha256)
            },
        }
    }

    pub fn chunk_key(&self, sha256: &str) -> (r: String)
        requires
            shardable(sha256@),
        ensures
            r@ == self@.key("chunks"@, sha256@),
    {
        match self {
            Namespace::User(id) => store::chunk_key(id.as_str(), sha256),
            Namespace::Group(id) => {
                let mut root = "chunks".to_owned();
                root.append("/group");
                store::key(root.as_str(), id.as_str(), sha256)
            },
        }
    }

    /// The directory prefix of one kind of object.
    pub fn dir(&self, kind: &str) -> (r: String)
        ensures
            r@ == self@.dir(kind@),
    {
        let mut r = kind.to_owned();
        match self {
            Namespace::User(id) => {
                r.push('/');
                r.append(id.as_str());
            },
            Namespace::Group(id) => {
                r.append("/group/");
                r.append(id.as_str());
            },
        }
        r
    }

    /// Who is charged for this namespace: the user, or the group's owner.
    pub fn billing_user(&self, group_owner: &str) -> (r: String)
        ensures
            r@ == (match self@ {
                Space::User(id) => id,
                Space::Group(_) => group_owner@,
            }),
    {
        match self {
            Namespace::User(id) => id.clone(),
            Namespace::Group(_) => group_owner.to_owned(),
        }
    }

    /// Move `delta` bytes of quota (negative to refund, floored at zero) onto what the billed
    /// user has in use, mirrored into the group's counter where the namespace is a group's.
    pub fn charge(&self, user_used: &mut i64, group_used: &mut i64, delta: i64)
        requires
            i64::MIN <= *old(user_used) + delta <= i64::MAX,
            self@ is Group ==> i64::MIN <= *old(group_used) + delta <= i64::MAX,
        ensures
            *final(user_used) == charged(*old(user_used) as int, delta as int),
            self@ is Group ==> *final(group_used) == charged(*old(group_used) as int, delta as int),
            self@ is User ==> *final(group_used) == *old(group_used),
    {
        *user_used = floored(*user_used + delta);
        match self {
            Namespace::Group(_) => {
                *group_used = floored(*group_used + delta);
            },
            Namespace::User(_) => {},
        }
    }
}

fn floored(n: i64) -> (r: i64)
    ensures
        r == (if n > 0 { n } else { 0 }),
{
    if n > 0 {
        n
    } else {
        0
    }
}

/// One object a namespace holds: its size and how many rows point at it.
#[derive(Debug)]
pub struct Row {
    pub sha: String,
    pub size: i64,
    pub refcount: i64,
}

/// What a namespace holds of one kind of object, each hash once.
#[derive(Debug)]
pub struct Table {
    pub rows: Vec<Row>,
}

/// An object's size and how many rows point at it.
pub ghost struct Held {
    pub size: int,
    pub refcount: int,
}

/// Where the hash stands among the rows; `-1` when it does not.
pub open spec fn row_at(rows: Seq<Row>, sha: Seq<char>) -> int
    decreases rows.len(),
{
    if rows.len() == 0 {
        -1
    } else if rows.last().sha@ == sha {
        rows.len() - 1
    } else {
        row_at(rows.drop_last(), sha)
    }
}

impl View for Table {
    type V = Map<Seq<char>, Held>;

    open spec fn view(&self) -> Map<Seq<char>, Held> {
        Map::new(
            |sha: Seq<char>| row_at(self.rows@, sha) >= 0,
            |sha: Seq<char>|
                Held {
                    size: self.rows@[row_at(self.rows@, sha)].size as int,
                    refcount: self.rows@[row_at(self.rows@, sha)].refcount as int,
                },
        )
    }
}

/// No hash stands in two rows.
pub open spec fn distinct(rows: Seq<Row>) -> bool {
    forall|i: int, j: int|
        0 <= i < j < rows.len() ==> (#[trigger] rows[i]).sha@ != (#[trigger] rows[j]).sha@
}

proof fn row_at_is_found(rows: Seq<Row>, sha: Seq<char>)
    ensures
        -1 <= row_at(rows, sha) < rows.len(),
        row_at(rows, sha) >= 0 ==> rows[row_at(rows, sha)].sha@ == sha,
        row_at(rows, sha) < 0 ==> forall|i: int| 0 <= i < rows.len() ==> (#[trigger] rows[i]).sha@ != sha,
    decreases rows.len(),
{
    if rows.len() > 0 && rows.last().sha@ != sha {
        row_at_is_found(rows.drop_last(), sha);
        if row_at(rows, sha) < 0 {
            assert forall|i: int| 0 <= i < rows.len() implies (#[trigger] rows[i]).sha@ != sha by {
                if i < rows.len() - 1 {
                    assert(rows.drop_last()[i].sha@ != sha);
                }
            }
        }
    }
}

proof fn row_at_is(rows: Seq<Row>, i: int)
    requires
        distinct(rows),
        0 <= i < rows.len(),
    ensures
        row_at(rows, rows[i].sha@) == i,
{
    row_at_is_found(rows, rows[i].sha@);
}

impl Table {
    /// No hash stands in two rows.
    pub open spec fn wf(self) -> bool {
        distinct(self.rows@)
    }

    /// A table that holds nothing.
    pub fn new() -> (r: Self)
        ensures
            r.wf(),
            r@ == Map::<Seq<char>, Held>::empty(),
    {
        let r = Table { rows: Vec::new() };
        assert(r@ =~= Map::<Seq<char>, Held>::empty());
        r
    }

    fn find(&self, sha: &str) -> (r: Option<usize>)
        ensures
            r is None ==> row_at(self.rows@, sha@) == -1 && !self@.contains_key(sha@),
            r matches Some(i) ==> {
                &&& i < self.rows.len()
                &&& row_at(self.rows@, sha@) == i
                &&& self.rows@[i as int].sha@ == sha@
                &&& self@.contains_key(sha@)
                &&& self@[sha@].size == self.rows@[i as int].size
                &&& self@[sha@].refcount == self.rows@[i as int].refcount
            },
    {
        let mut i: usize = self.rows.len();
        assert(self.rows@.take(i as int) =~= self.rows@);
        while i > 0
            invariant
                i <= self.rows.len(),
                row_at(self.rows@, sha@) == row_at(self.rows@.take(i as int), sha@),
            decreases i,
        {
            assert(self.rows@.take(i as int).drop_last() =~= self.rows@.take(i - 1));
            if same(self.rows[i - 1].sha.as_str(), sha) {
                return Some(i - 1);
            }
            i -= 1;
        }
        None
    }

    /// Is no size negative?
    pub fn sizes_hold(&self) -> (r: bool)
        requires
            self.wf(),
        ensures
            r == forall|sha: Seq<char>| #[trigger] self@.contains_key(sha) ==> self@[sha].size >= 0,
    {
        let mut i: usize = 0;
        while i < self.rows.len()
            invariant
                i <= self.rows.len(),
                self.wf(),
                forall|k: int| 0 <= k < i ==> (#[trigger] self.rows@[k]).size >= 0,
            decreases self.rows.len() - i,
        {
            if self.rows[i].size < 0 {
                proof {
                    row_at_is(self.rows@, i as int);
                    assert(self@.contains_key(self.rows@[i as int].sha@));
                }
                return false;
            }
            i += 1;
        }
        proof {
            assert forall|sha: Seq<char>| #[trigger] self@.contains_key(sha) implies self@[sha].size
                >= 0 by {
                row_at_is_found(self.rows@, sha);
            }
        }
        true
    }

    /// The size of an object the namespace holds.
    pub fn size(&self, sha: &str) -> (r: Option<i64>)
        ensures
            r is Some == self@.contains_key(sha@),
            r matches Some(n) ==> n == self@[sha@].size,
    {
        match self.find(sha) {
            Some(i) => Some(self.rows[i].size),
            None => None,
        }
    }

    /// How many rows point at an object the namespace holds.
    pub fn refcount(&self, sha: &str) -> (r: Option<i64>)
        ensures
            r is Some == self@.contains_key(sha@),
            r matches Some(n) ==> n == self@[sha@].refcount,
    {
        match self.find(sha) {
            Some(i) => Some(self.rows[i].refcount),
            None => None,
        }
    }

    /// Does the namespace hold the object?
    pub fn has(&self, sha: &str) -> (r: bool)
        ensures
            r == self@.contains_key(sha@),
    {
        self.size(sha).is_some()
    }

    /// The chunks of one file, in their order, each with its size here: nothing for one that the
    /// namespace does not hold.
    pub fn chunk_list(&self, shas: Vec<String>) -> (r: Vec<(String, i64)>)
        ensures
            r@.len() == shas@.len(),
            forall|i: int|
                0 <= i < r@.len() ==> {
                    &&& (#[trigger] r@[i]).0@ == shas@[i]@
                    &&& r@[i].1 == if self@.contains_key(shas@[i]@) {
                        self@[shas@[i]@].size
                    } else {
                        0
                    }
                },
    {
        let mut r: Vec<(String, i64)> = Vec::new();
        let mut i: usize = 0;
        while i < shas.len()
            invariant
                i <= shas.len(),
                r@.len() == i,
                forall|k: int|
                    0 <= k < r@.len() ==> {
                        &&& (#[trigger] r@[k]).0@ == shas@[k]@
                        &&& r@[k].1 == if self@.contains_key(shas@[k]@) {
                            self@[shas@[k]@].size
                        } else {
                            0
                        }
                    },
            decreases shas.len() - i,
        {
            let size: i64 = match self.size(shas[i].as_str()) {
                Some(n) => n,
                None => 0,
            };
            r.push((shas[i].clone(), size));
            i += 1;
        }
        r
    }

    /// Insert the object at `by` references, or add `by` to those it has.
    pub fn incref(&mut self, sha: &str, size: i64, by: i64)
        requires
            old(self).wf(),
            old(self)@.contains_key(sha@) ==> i64::MIN <= old(self)@[sha@].refcount + by <= i64::MAX,
        ensures
            final(self).wf(),
            final(self)@ == old(self)@.insert(
                sha@,
                if old(self)@.contains_key(sha@) {
                    Held {
                        size: old(self)@[sha@].size,
                        refcount: old(self)@[sha@].refcount + by,
                    }
                } else {
                    Held { size: size as int, refcount: by as int }
                },
            ),
    {
        match self.find(sha) {
            Some(i) => {
                let n: i64 = self.rows[i].refcount + by;
                self.set_refcount(i, n);
            },
            None => {
                let ghost was = self.rows@;
                let ghost held = self@;
                let row = Row { sha: sha.to_owned(), size, refcount: by };
                let ghost new = row;
                self.rows.push(row);
                proof {
                    row_at_is_found(was, sha@);
                    assert(self.rows@.drop_last() =~= was);
                    assert forall|i: int, j: int| 0 <= i < j < self.rows@.len() implies (
                    #[trigger] self.rows@[i]).sha@ != (#[trigger] self.rows@[j]).sha@ by {
                        assert(self.rows@[i] == was[i]);
                        if j < was.len() {
                            assert(self.rows@[j] == was[j]);
                        }
                    }
                    assert forall|s: Seq<char>| s != sha@ implies row_at(self.rows@, s) == row_at(was, s) by {
                        assert(self.rows@.last() == new);
                    }
                    assert(row_at(self.rows@, sha@) == was.len());
                    assert forall|s: Seq<char>| row_at(was, s) >= 0 implies self.rows@[row_at(was, s)] == was[row_at(was, s)] by {
                        row_at_is_found(was, s);
                    }
                    assert(self@ =~= held.insert(sha@, Held { size: size as int, refcount: by as int }));
                }
            },
        }
    }

    fn set_refcount(&mut self, at: usize, n: i64)
        requires
            old(self).wf(),
            at < old(self).rows.len(),
        ensures
            final(self).wf(),
            final(self).rows.len() == old(self).rows.len(),
            final(self).rows@[at as int].sha@ == old(self).rows@[at as int].sha@,
            final(self)@ == old(self)@.insert(
                old(self).rows@[at as int].sha@,
                Held { size: old(self).rows@[at as int].size as int, refcount: n as int },
            ),
    {
        let ghost was = self.rows@;
        let ghost held = self@;
        let row = Row { sha: self.rows[at].sha.clone(), size: self.rows[at].size, refcount: n };
        self.rows.set(at, row);
        proof {
            let sha = was[at as int].sha@;
            assert forall|i: int| 0 <= i < was.len() implies (#[trigger] self.rows@[i]).sha@ == was[i].sha@ by {}
            assert(distinct(self.rows@)) by {
                assert forall|i: int, j: int| 0 <= i < j < self.rows@.len() implies (
                #[trigger] self.rows@[i]).sha@ != (#[trigger] self.rows@[j]).sha@ by {
                    assert(was[i].sha@ != was[j].sha@);
                }
            }
            assert forall|s: Seq<char>| row_at(self.rows@, s) == row_at(was, s) by {
                row_at_is_found(self.rows@, s);
                row_at_is_found(was, s);
                if row_at(was, s) >= 0 {
                    let i = row_at(was, s);
                    assert(self.rows@[i].sha@ == s);
                    row_at_is(self.rows@, i);
                } else if row_at(self.rows@, s) >= 0 {
                    let i = row_at(self.rows@, s);
                    assert(was[i].sha@ == s);
                }
            }
            row_at_is(was, at as int);
            assert forall|s: Seq<char>| s != sha && row_at(was, s) >= 0 implies self.rows@[row_at(was, s)] == was[row_at(was, s)] by {
                row_at_is_found(was, s);
            }
            assert(self@ =~= held.insert(
                sha,
                Held { size: was[at as int].size as int, refcount: n as int },
            ));
        }
    }

    /// Drop `by` references. The references left and the size of the object; `None` when it was
    /// not held. The row stays until [`Table::delete_row`].
    pub fn decref(&mut self, sha: &str, by: i64) -> (r: Option<(i64, i64)>)
        requires
            old(self).wf(),
            old(self)@.contains_key(sha@) ==> i64::MIN <= old(self)@[sha@].refcount - by <= i64::MAX,
        ensures
            final(self).wf(),
            r is Some == old(self)@.contains_key(sha@),
            r matches Some((rc, size)) ==> {
                &&& rc == old(self)@[sha@].refcount - by
                &&& size == old(self)@[sha@].size
                &&& final(self)@ == old(self)@.insert(
                    sha@,
                    Held { size: size as int, refcount: rc as int },
                )
            },
            r is None ==> final(self)@ == old(self)@,
    {
        match self.find(sha) {
            Some(i) => {
                let n: i64 = self.rows[i].refcount - by;
                let size: i64 = self.rows[i].size;
                self.set_refcount(i, n);
                Some((n, size))
            },
            None => None,
        }
    }

    /// Forget the object.
    pub fn delete_row(&mut self, sha: &str)
        requires
            old(self).wf(),
        ensures
            final(self).wf(),
            final(self)@ == old(self)@.remove(sha@),
    {
        let ghost was = self.rows@;
        let ghost held = self@;
        match self.find(sha) {
            Some(at) => {
                self.rows.remove(at);
                proof {
                    let now = self.rows@;
                    assert forall|i: int| 0 <= i < now.len() implies #[trigger] now[i] == was[if i < at { i } else { i + 1 }] by {}
                    assert forall|i: int, j: int| 0 <= i < j < now.len() implies (#[trigger] now[i]).sha@ != (#[trigger] now[j]).sha@ by {
                        let a = if i < at { i } else { i + 1 };
                        let b = if j < at { j } else { j + 1 };
                        assert(was[a].sha@ != was[b].sha@);
                    }
                    assert forall|s: Seq<char>| s != sha@ && row_at(was, s) >= 0 implies 0 <= row_at(now, s) == (if row_at(was, s) < at { row_at(was, s) } else { row_at(was, s) - 1 }) by {
                        row_at_is_found(was, s);
                        assert(row_at(was, s) != at);
                        let i = row_at(was, s);
                        let k = if i < at { i } else { i - 1 };
                        assert(now[k] == was[i]);
                        row_at_is(now, k);
                    }
                    assert forall|s: Seq<char>| row_at(now, s) >= 0 implies s != sha@ && row_at(was, s) >= 0 by {
                        row_at_is_found(now, s);
                        let i = row_at(now, s);
                        let k = if i < at { i } else { i + 1 };
                        assert(was[k].sha@ == s);
                        row_at_is(was, k);
                        row_at_is(was, at as int);
                    }
                    assert forall|s: Seq<char>| row_at(now, s) >= 0 implies #[trigger] now[row_at(now, s)] == was[row_at(was, s)] by {
                        row_at_is_found(now, s);
                        row_at_is_found(was, s);
                    }
                    assert(self@ =~= held.remove(sha@));
                }
            },
            None => {
                assert(self@ =~= held.remove(sha@));
            },
        }
    }
}

/// Objects of a user and of a group never share a key, where no id and no hash holds a `/`.
pub proof fn group_keys_sit_apart(
    user: Seq<char>,
    group: Seq<char>,
    kind: Seq<char>,
    other: Seq<char>,
    a: Seq<char>,
    b: Seq<char>,
)
    requires
        !kind.contains('/'),
        !other.contains('/'),
        !user.contains('/'),
        !group.contains('/'),
        shardable(a),
        shardable(b),
        !a.contains('/'),
        !b.contains('/'),
    ensures
        Space::User(user).key(kind, a) != Space::Group(group).key(other, b),
{
    key_parts(kind, user, a);
    group_key_parts(other, group, b);
    let mine = split_on(Space::User(user).key(kind, a), '/');
    let theirs = split_on(Space::Group(group).key(other, b), '/');
    assert(mine.len() == 4 && theirs.len() == 5);
}

proof fn group_key_parts(kind: Seq<char>, group: Seq<char>, sha: Seq<char>)
    requires
        !kind.contains('/'),
        !group.contains('/'),
        shardable(sha),
        !sha.contains('/'),
    ensures
        split_on(Space::Group(group).key(kind, sha), '/') == seq![
            kind,
            "group"@,
            group,
            shard_of(sha),
            sha,
        ],
{
    reveal_strlit("group");
    reveal_strlit("/group");
    let tail = group.push('/') + (shard_of(sha).push('/') + sha);
    let key = Space::Group(group).key(kind, sha);
    assert("/group"@ =~= seq!['/'] + "group"@);
    assert(key =~= kind.push('/') + key_under("group"@, group, sha));
    key_parts("group"@, group, sha);
    split_joins(kind, '/', key_under("group"@, group, sha));
    one_part(kind);
    assert(split_on(key, '/') =~= seq![kind, "group"@, group, shard_of(sha), sha]);
}

/// In one namespace a key belongs to one hash.
pub proof fn a_key_belongs_to_one_object(space: Space, kind: Seq<char>, a: Seq<char>, b: Seq<char>)
    requires
        !kind.contains('/'),
        match space {
            Space::User(id) => !id.contains('/'),
            Space::Group(id) => !id.contains('/'),
        },
        shardable(a),
        shardable(b),
        !a.contains('/'),
        !b.contains('/'),
        space.key(kind, a) == space.key(kind, b),
    ensures
        a == b,
{
    match space {
        Space::User(id) => {
            key_parts(kind, id, a);
            key_parts(kind, id, b);
            assert(split_on(space.key(kind, a), '/')[3] == a);
            assert(split_on(space.key(kind, b), '/')[3] == b);
        },
        Space::Group(id) => {
            group_key_parts(kind, id, a);
            group_key_parts(kind, id, b);
            assert(split_on(space.key(kind, a), '/')[4] == a);
            assert(split_on(space.key(kind, b), '/')[4] == b);
        },
    }
}

/// A key tells the kind of its object, where no id and no hash holds a `/`.
pub proof fn a_key_belongs_to_one_kind(
    space: Space,
    kind: Seq<char>,
    other: Seq<char>,
    a: Seq<char>,
    b: Seq<char>,
)
    requires
        !kind.contains('/'),
        !other.contains('/'),
        match space {
            Space::User(id) => !id.contains('/'),
            Space::Group(id) => !id.contains('/'),
        },
        shardable(a),
        shardable(b),
        !a.contains('/'),
        !b.contains('/'),
        space.key(kind, a) == space.key(other, b),
    ensures
        kind == other,
{
    match space {
        Space::User(id) => {
            key_parts(kind, id, a);
            key_parts(other, id, b);
        },
        Space::Group(id) => {
            group_key_parts(kind, id, a);
            group_key_parts(other, id, b);
        },
    }
    assert(split_on(space.key(kind, a), '/')[0] == kind);
    assert(split_on(space.key(other, b), '/')[0] == other);
}

/// A refund of what was charged gives back what was in use before, where nothing was owed.
pub proof fn a_refund_undoes_its_charge(used: int, bytes: int)
    requires
        used >= 0,
        bytes >= 0,
    ensures
        charged(charged(used, bytes), -bytes) == used,
        used >= bytes ==> charged(charged(used, -bytes), bytes) == used,
{
}

// ---- laws on the calls

/// A shared save's bytes live in its group's namespace and any other's in its owner's; a user pays
/// for their own and the group's owner for the group's.
pub proof fn where_bytes_live_and_who_pays(
    owner: &str,
    group: Option<&str>,
    ns: Namespace,
    group_owner: &str,
    payer: String,
)
    requires
        call_ensures(Namespace::of, (owner, group), ns),
        call_ensures(Namespace::billing_user, (&ns, group_owner), payer),
    ensures
        group is None ==> ns is User && ns->User_0@ == owner@ && payer@ == owner@,
        group matches Some(g) ==> ns is Group && ns->Group_0@ == g@ && payer@ == group_owner@,
{
}

/// The keys of a namespace: a user's under their id, a group's under `group` and its id, each by the
/// shard of the hash.
pub proof fn keys_of_a_namespace(
    ns: Namespace,
    sha: &str,
    s: String,
    blob: String,
    chunk: String,
    kind: &str,
    dir: String,
)
    requires
        shardable(sha@),
        call_ensures(store::shard, (sha,), s),
        call_ensures(Namespace::blob_key, (&ns, sha), blob),
        call_ensures(Namespace::chunk_key, (&ns, sha), chunk),
        call_ensures(Namespace::dir, (&ns, kind), dir),
    ensures
        ns matches Namespace::User(id) ==> {
            &&& blob@ == "blobs/"@ + id@ + "/"@ + s@ + "/"@ + sha@
            &&& chunk@ == "chunks/"@ + id@ + "/"@ + s@ + "/"@ + sha@
            &&& dir@ == kind@ + "/"@ + id@
        },
        ns matches Namespace::Group(id) ==> {
            &&& blob@ == "blobs/group/"@ + id@ + "/"@ + s@ + "/"@ + sha@
            &&& chunk@ == "chunks/group/"@ + id@ + "/"@ + s@ + "/"@ + sha@
            &&& dir@ == kind@ + "/group/"@ + id@
        },
{
    reveal_strlit("blobs");
    reveal_strlit("chunks");
    reveal_strlit("/group");
    reveal_strlit("/");
    reveal_strlit("blobs/");
    reveal_strlit("chunks/");
    reveal_strlit("blobs/group/");
    reveal_strlit("chunks/group/");
    match ns {
        Namespace::User(id) => {
            assert("blobs/"@ =~= "blobs"@.push('/'));
            assert("chunks/"@ =~= "chunks"@.push('/'));
            assert(blob@ =~= "blobs/"@ + id@ + "/"@ + s@ + "/"@ + sha@);
            assert(chunk@ =~= "chunks/"@ + id@ + "/"@ + s@ + "/"@ + sha@);
            assert(dir@ =~= kind@ + "/"@ + id@);
        },
        Namespace::Group(id) => {
            assert("blobs/group/"@ =~= ("blobs"@ + "/group"@).push('/'));
            assert("chunks/group/"@ =~= ("chunks"@ + "/group"@).push('/'));
            assert(blob@ =~= "blobs/group/"@ + id@ + "/"@ + s@ + "/"@ + sha@);
            assert(chunk@ =~= "chunks/group/"@ + id@ + "/"@ + s@ + "/"@ + sha@);
        },
    }
}

/// A charge moves what is in use by its bytes, and not below nothing: the payer's always, the
/// group's counter for a group alone.
pub proof fn a_charge_moves_what_is_in_use(ns: Namespace, user: &mut i64, group: &mut i64, delta: i64)
    requires
        i64::MIN <= *old(user) + delta <= i64::MAX,
        i64::MIN <= *old(group) + delta <= i64::MAX,
        call_ensures(Namespace::charge, (&ns, user, group, delta), ()),
    ensures
        *old(user) + delta >= 0 ==> *final(user) == *old(user) + delta,
        *old(user) + delta < 0 ==> *final(user) == 0,
        ns is User ==> *final(group) == *old(group),
        ns is Group && *old(group) + delta >= 0 ==> *final(group) == *old(group) + delta,
        ns is Group && *old(group) + delta < 0 ==> *final(group) == 0,
{
}

/// A reference taken and dropped again leaves an object's references as they were; an object that
/// was not held comes in at the size and the references it is given; a forgotten one is not held.
/// Every other object stays as it is.
pub proof fn references_come_and_go(
    t: &mut Table,
    u: &mut Table,
    v: &mut Table,
    sha: &str,
    size: i64,
    by: i64,
    left: Option<(i64, i64)>,
    other: Seq<char>,
)
    requires
        old(t).wf(),
        old(t)@.contains_key(sha@) ==> i64::MIN <= old(t)@[sha@].refcount + by <= i64::MAX,
        call_ensures(Table::incref, (t, sha, size, by), ()),
        call_ensures(Table::decref, (u, sha, by), left),
        call_ensures(Table::delete_row, (v, sha), ()),
        *old(u) == *final(t),
        *old(v) == *final(u),
    ensures
        final(t)@.contains_key(sha@),
        old(t)@.contains_key(sha@) ==> final(t)@[sha@].refcount == old(t)@[sha@].refcount + by
            && final(t)@[sha@].size == old(t)@[sha@].size,
        !old(t)@.contains_key(sha@) ==> final(t)@[sha@].refcount == by && final(t)@[sha@].size
            == size,
        left is Some,
        left matches Some((n, bytes)) ==> n == final(t)@[sha@].refcount - by && bytes
            == final(t)@[sha@].size && final(u)@[sha@].refcount == n,
        !final(v)@.contains_key(sha@),
        other != sha@ ==> (final(v)@.contains_key(other) <==> old(t)@.contains_key(other)),
        other != sha@ && old(t)@.contains_key(other) ==> final(v)@[other] == old(t)@[other],
{
}

/// What is read of an object is what the namespace holds of it.
pub proof fn what_is_held_is_read(
    t: Table,
    sha: &str,
    size: Option<i64>,
    count: Option<i64>,
    has: bool,
    i: int,
)
    requires
        t.wf(),
        call_ensures(Table::size, (&t, sha), size),
        call_ensures(Table::refcount, (&t, sha), count),
        call_ensures(Table::has, (&t, sha), has),
        0 <= i < t.rows@.len(),
    ensures
        has <==> size is Some,
        has <==> count is Some,
        t.rows@[i].sha@ == sha@ ==> has && size == Some(t.rows@[i].size) && count == Some(
            t.rows@[i].refcount,
        ),
        has ==> exists|k: int| 0 <= k < t.rows@.len() && (#[trigger] t.rows@[k]).sha@ == sha@,
{
    row_at_is_found(t.rows@, sha@);
    if t.rows@[i].sha@ == sha@ {
        row_at_is(t.rows@, i);
    }
}

} // verus!
