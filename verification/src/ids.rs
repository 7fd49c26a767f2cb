//! The ids that the server mints: UUIDs in their canonical shape.

use vstd::prelude::*;

use crate::text::chars_of;

verus! {

/// A lower-case hexadecimal digit.
pub open spec fn is_hex(c: char) -> bool {
    ('0' <= c && c <= '9') || ('a' <= c && c <= 'f')
}

/// Does the id have a hyphen at this place?
pub open spec fn hyphen_at(i: int) -> bool {
    i == 8 || i == 13 || i == 18 || i == 23
}

/// `0f8a5c2e-3b1d-4e6f-9a7b-1c2d3e4f5a6b`: lower-case and hyphenated.
pub open spec fn is_uuid(s: Seq<char>) -> bool {
    s.len() == 36 && forall|i: int|
        0 <= i < 36 ==> if hyphen_at(i) {
            #[trigger] s[i] == '-'
        } else {
            is_hex(s[i])
        }
}

/// Whether the text is an id in its canonical shape.
pub fn is_canonical(s: &str) -> (r: bool)
    ensures
        r == is_uuid(s@),
{
    let c = chars_of(s);
    if c.len() != 36 {
        return false;
    }
    let mut i: usize = 0;
    while i < 36
        invariant
            i <= 36,
            c@.len() == 36,
            c@ == s@,
            forall|k: int|
                0 <= k < i ==> if hyphen_at(k) {
                    #[trigger] s@[k] == '-'
                } else {
                    is_hex(s@[k])
                },
        decreases 36 - i,
    {
        let x: char = c[i];
        let fits = if i == 8 || i == 13 || i == 18 || i == 23 {
            x == '-'
        } else {
            ('0' <= x && x <= '9') || ('a' <= x && x <= 'f')
        };
        assert(s@[i as int] == x);
        if !fits {
            return false;
        }
        i += 1;
    }
    true
}

/// The id, when the text is one.
pub fn parse(s: &str) -> (r: Option<String>)
    ensures
        r is Some == is_uuid(s@),
        r matches Some(id) ==> id@ == s@,
{
    if is_canonical(s) {
        Some(s.to_owned())
    } else {
        None
    }
}


// ---- laws

/// An id has its length, hyphens at four places and lower-case hexadecimal digits at the others.
pub proof fn an_id_has_its_shape(s: &str, r: bool, p: Option<String>, i: int)
    requires
        call_ensures(is_canonical, (s,), r),
        call_ensures(parse, (s,), p),
    ensures
        r <==> p is Some,
        p is Some ==> p->0@ == s@ && s@.len() == 36,
        r && 0 <= i < 36 ==> (s@[i] == '-' <==> i == 8 || i == 13 || i == 18 || i == 23),
        r && 0 <= i < 36 && s@[i] != '-' ==> ('0' <= s@[i] && s@[i] <= '9') || ('a' <= s@[i]
            && s@[i] <= 'f'),
        (s@.len() == 36 && s@[8] == '-' && s@[13] == '-' && s@[18] == '-' && s@[23] == '-'
            && forall|k: int|
            0 <= k < 36 && k != 8 && k != 13 && k != 18 && k != 23 ==> (('0' <= #[trigger] s@[k]
                && s@[k] <= '9') || ('a' <= s@[k] && s@[k] <= 'f'))) ==> r,
{
}

} // verus!
