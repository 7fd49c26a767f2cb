//! The keys of a user's objects in the store.

use vstd::prelude::*;

use crate::text::chars_of;
#[allow(unused_imports)]
use crate::text::{split_joins, split_on};

verus! {

/// How many bytes the character takes, as far as a shard asks: one, two, or more.
pub open spec fn width(c: char) -> int {
    if (c as u32) < 0x80 {
        1
    } else if (c as u32) < 0x800 {
        2
    } else {
        3
    }
}

/// Do the first two bytes of the hash end where a character ends? Of a hexadecimal hash they do.
pub open spec fn shardable(sha: Seq<char>) -> bool {
    ||| sha.len() == 0
    ||| width(sha[0]) == 2
    ||| width(sha[0]) == 1 && (sha.len() == 1 || width(sha[1]) == 1)
}

/// See [`shardable`].
pub fn is_shardable(sha: &str) -> (r: bool)
    ensures
        r == shardable(sha@),
{
    let c = chars_of(sha);
    if c.len() == 0 {
        return true;
    }
    let first = c[0] as u32;
    if first >= 0x80 {
        return first < 0x800;
    }
    c.len() == 1 || (c[1] as u32) < 0x80
}

/// The first two bytes of the hash; `00` for a shorter one.
pub open spec fn shard_of(sha: Seq<char>) -> Seq<char> {
    if sha.len() == 0 || (sha.len() == 1 && width(sha[0]) == 1) {
        "00"@
    } else if width(sha[0]) == 2 {
        sha.take(1)
    } else {
        sha.take(2)
    }
}

/// The directory an object's file lies in is named by the first two bytes of its hash.
pub fn shard(sha256: &str) -> (r: String)
    requires
        shardable(sha256@),
    ensures
        r@ == shard_of(sha256@),
{
    let c = chars_of(sha256);
    if c.len() == 0 {
        return "00".to_owned();
    }
    if (c[0] as u32) >= 0x80 {
        assert(c@.subrange(0, 1) =~= c@.take(1));
        return crate::text::text_of(&c, 0, 1);
    }
    if c.len() == 1 {
        return "00".to_owned();
    }
    assert(c@.subrange(0, 2) =~= c@.take(2));
    crate::text::text_of(&c, 0, 2)
}

/// `root/<id>/<shard>/<sha>`.
pub open spec fn key_under(root: Seq<char>, id: Seq<char>, sha: Seq<char>) -> Seq<char> {
    root.push('/') + (id.push('/') + (shard_of(sha).push('/') + sha))
}

/// The key of an object under `root` and `id`.
pub fn key(root: &str, id: &str, sha256: &str) -> (r: String)
    requires
        shardable(sha256@),
    ensures
        r@ == key_under(root@, id@, sha256@),
{
    let mut r = root.to_owned();
    r.push('/');
    r.append(id);
    r.push('/');
    r.append(shard(sha256).as_str());
    r.push('/');
    r.append(sha256);
    assert(r@ =~= key_under(root@, id@, sha256@));
    r
}

/// The key of a user's blob.
pub fn blob_key(user_id: &str, sha256: &str) -> (r: String)
    requires
        shardable(sha256@),
    ensures
        r@ == key_under("blobs"@, user_id@, sha256@),
{
    key("blobs", user_id, sha256)
}

/// The key of a user's chunk.
pub fn chunk_key(user_id: &str, sha256: &str) -> (r: String)
    requires
        shardable(sha256@),
    ensures
        r@ == key_under("chunks"@, user_id@, sha256@),
{
    key("chunks", user_id, sha256)
}

/// The parts of a key, where neither the id nor the hash holds a `/`.
pub proof fn key_parts(root: Seq<char>, id: Seq<char>, sha: Seq<char>)
    requires
        !root.contains('/'),
        !id.contains('/'),
        shardable(sha),
        !sha.contains('/'),
    ensures
        split_on(key_under(root, id, sha), '/') == seq![root, id, shard_of(sha), sha],
{
    let a = shard_of(sha);
    assert(!a.contains('/')) by {
        reveal_strlit("00");
        if sha.len() >= 1 {
            assert(sha.contains(sha[0]));
        }
        if sha.len() >= 2 {
            assert(sha.contains(sha[1]));
        }
        if a.contains('/') {
            let i = choose|i: int| 0 <= i < a.len() && a[i] == '/';
            assert(i == 0 || i == 1);
        }
    }
    split_joins(a, '/', sha);
    split_joins(id, '/', a.push('/') + sha);
    split_joins(root, '/', id.push('/') + (a.push('/') + sha));
    one_part(root);
    one_part(id);
    one_part(a);
    one_part(sha);
    assert(split_on(key_under(root, id, sha), '/') =~= seq![root, id, a, sha]);
}

/// A text without the separator is its own only part.
pub proof fn one_part(s: Seq<char>)
    requires
        !s.contains('/'),
    ensures
        split_on(s, '/') == seq![s],
    decreases s.len(),
{
    if s.len() > 0 {
        assert(s.contains(s[s.len() - 1]));
        if s.drop_last().contains('/') {
            let i = choose|i: int| 0 <= i < s.drop_last().len() && s.drop_last()[i] == '/';
            assert(s[i] == '/');
        }
        one_part(s.drop_last());
        assert(s.drop_last().push(s.last()) =~= s);
        assert(split_on(s, '/') =~= seq![s]);
    } else {
        assert(s =~= Seq::<char>::empty());
    }
}

/// A hash lies in the directory of its first two characters, where it is made of ASCII, as a
/// hexadecimal one is; one that is too short lies in `00`.
pub proof fn a_shard_is_two_characters(sha: &str, ok: bool, r: String)
    requires
        call_ensures(is_shardable, (sha,), ok),
        call_ensures(shard, (sha,), r),
        forall|i: int| 0 <= i < sha@.len() ==> (#[trigger] sha@[i] as u32) < 0x80,
    ensures
        ok,
        sha@.len() >= 2 ==> r@ == sha@.take(2),
        sha@.len() < 2 ==> r@ == "00"@,
{
    if sha@.len() > 0 {
        assert((sha@[0] as u32) < 0x80);
    }
    if sha@.len() > 1 {
        assert((sha@[1] as u32) < 0x80);
    }
}

/// A hash that can be cut is one whose first two bytes end where a character does.
pub proof fn which_hashes_can_be_cut(sha: &str, ok: bool)
    requires
        call_ensures(is_shardable, (sha,), ok),
        sha@.len() >= 2,
    ensures
        (sha@[0] as u32) >= 0x800 ==> !ok,
        0x80 <= (sha@[0] as u32) < 0x800 ==> ok,
        (sha@[0] as u32) < 0x80 ==> (ok <==> (sha@[1] as u32) < 0x80),
{
}

/// The key of an object, part by part: the kind, the user, the shard and the hash.
pub proof fn a_key_is_kind_user_shard_and_hash(
    user: &str,
    sha: &str,
    s: String,
    blob: String,
    chunk: String,
)
    requires
        call_ensures(shard, (sha,), s),
        call_ensures(blob_key, (user, sha), blob),
        call_ensures(chunk_key, (user, sha), chunk),
    ensures
        blob@ == "blobs/"@ + user@ + "/"@ + s@ + "/"@ + sha@,
        chunk@ == "chunks/"@ + user@ + "/"@ + s@ + "/"@ + sha@,
{
    reveal_strlit("blobs/");
    reveal_strlit("chunks/");
    reveal_strlit("blobs");
    reveal_strlit("chunks");
    reveal_strlit("/");
    assert("blobs/"@ =~= "blobs"@.push('/'));
    assert("chunks/"@ =~= "chunks"@.push('/'));
    assert(blob@ =~= "blobs/"@ + user@ + "/"@ + s@ + "/"@ + sha@);
    assert(chunk@ =~= "chunks/"@ + user@ + "/"@ + s@ + "/"@ + sha@);
}


/// A key has its root, its owner's id, the shard of its hash and the hash, with slashes between.
pub proof fn a_key_has_its_parts(root: &str, id: &str, sha: &str, s: &str, r: String)
    requires
        shardable(sha@),
        call_ensures(key, (root, id, sha), r),
        s@ == shard_of(sha@),
    ensures
        r@ == root@ + seq!['/'] + id@ + seq!['/'] + s@ + seq!['/'] + sha@,
{
    assert(r@ =~= root@ + seq!['/'] + id@ + seq!['/'] + s@ + seq!['/'] + sha@);
}

} // verus!
