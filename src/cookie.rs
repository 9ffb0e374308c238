//! Browser cookies as text: the assignment that sets one.

use vstd::prelude::*;
use vstd::slice::*;
use vstd::string::*;
use vstd::utf8::*;
use crate::codec::text_from_utf8;
use crate::text::{decimal, push_decimal};

verus! {

/// How long a cookie set without an explicit lifetime lasts, in days.
pub const DEFAULT_DAYS: i32 = 365;

pub const SECS_PER_DAY: i64 = 86400;

/// No cookie of the requested name is set.
#[derive(Clone, Copy, Debug, PartialEq, Eq, Structural)]
pub enum CookieError {
    NotFound,
}

/// `b` cut at every `sep`: one more piece than there are separators.
pub open spec fn split(b: Seq<u8>, sep: u8) -> Seq<Seq<u8>>
    decreases b.len(),
{
    if b.len() == 0 {
        seq![seq![]]
    } else {
        let s = split(b.drop_last(), sep);
        if b.last() == sep {
            s.push(seq![])
        } else {
            s.update(s.len() - 1, s.last().push(b.last()))
        }
    }
}

/// The number of spaces that `e` starts with.
pub open spec fn leading_spaces(e: Seq<u8>) -> nat
    decreases e.len(),
{
    if e.len() > 0 && e[0] == 32u8 {
        1 + leading_spaces(e.drop_first())
    } else {
        0
    }
}

/// The value of an entry `name=value` of a cookie string whose name is
/// `name`, if the entry has one.
pub open spec fn entry_value(entry: Seq<u8>, name: Seq<u8>) -> Option<Seq<u8>> {
    let parts = split(entry.skip(leading_spaces(entry) as int), 61u8);
    if parts[0] == name && parts.len() >= 2 {
        Some(parts[1])
    } else {
        None
    }
}

/// The value of the last of the `;`-separated entries that sets `name`.
pub open spec fn value_in(entries: Seq<Seq<u8>>, name: Seq<u8>) -> Option<Seq<u8>>
    decreases entries.len(),
{
    if entries.len() == 0 {
        None
    } else {
        match entry_value(entries.last(), name) {
            Some(v) => Some(v),
            None => value_in(entries.drop_last(), name),
        }
    }
}

/// The value that a cookie string gives `name`.
pub open spec fn cookie_value(cookies: Seq<u8>, name: Seq<u8>) -> Option<Seq<u8>> {
    value_in(split(cookies, 59u8), name)
}

proof fn lemma_split_nonempty(b: Seq<u8>, sep: u8)
    ensures
        split(b, sep).len() >= 1,
    decreases b.len(),
{
    if b.len() > 0 {
        lemma_split_nonempty(b.drop_last(), sep);
    }
}

fn split_bytes(b: &[u8], sep: u8) -> (r: Vec<Vec<u8>>)
    ensures
        r@.map_values(|v: Vec<u8>| v@) == split(b@, sep),
{
    let mut done: Vec<Vec<u8>> = Vec::new();
    let mut cur: Vec<u8> = Vec::new();
    let mut i: usize = 0;
    while i < b.len()
        invariant
            i <= b@.len(),
            done@.map_values(|v: Vec<u8>| v@).push(cur@) == split(b@.take(i as int), sep),
        decreases b@.len() - i,
    {
        let ghost before = done@.map_values(|v: Vec<u8>| v@).push(cur@);
        proof {
            assert(b@.take(i + 1).drop_last() =~= b@.take(i as int));
            assert(b@.take(i + 1).last() == b@[i as int]);
        }
        if b[i] == sep {
            let piece = cur;
            cur = Vec::new();
            done.push(piece);
            assert(done@.map_values(|v: Vec<u8>| v@).push(cur@) =~= before.push(seq![]));
        } else {
            cur.push(b[i]);
            assert(done@.map_values(|v: Vec<u8>| v@).push(cur@) =~= before.update(
                before.len() - 1,
                before.last().push(b@[i as int]),
            ));
        }
        i += 1;
    }
    assert(b@.take(i as int) =~= b@);
    done.push(cur);
    assert(done@.map_values(|v: Vec<u8>| v@) =~= split(b@, sep));
    done
}

proof fn lemma_leading_spaces(e: Seq<u8>, k: int)
    requires
        0 <= k <= e.len(),
        forall|j: int| 0 <= j < k ==> e[j] == 32u8,
        k == e.len() || e[k] != 32u8,
    ensures
        leading_spaces(e) == k,
    decreases k,
{
    if k > 0 {
        lemma_leading_spaces(e.drop_first(), k - 1);
    }
}

fn entry_value_of(entry: &Vec<u8>, name: &[u8]) -> (r: Option<Vec<u8>>)
    ensures
        match r {
            Some(v) => entry_value(entry@, name@) == Some(v@),
            None => entry_value(entry@, name@) is None,
        },
{
    let mut k: usize = 0;
    while k < entry.len() && entry[k] == 32u8
        invariant
            k <= entry@.len(),
            forall|j: int| 0 <= j < k ==> entry@[j] == 32u8,
        decreases entry@.len() - k,
    {
        k += 1;
    }
    proof {
        lemma_leading_spaces(entry@, k as int);
    }
    let trimmed = slice_subrange(entry.as_slice(), k, entry.len());
    assert(trimmed@ =~= entry@.skip(k as int));
    let mut parts = split_bytes(trimmed, 61u8);
    proof {
        lemma_split_nonempty(trimmed@, 61u8);
        assert(parts@.map_values(|v: Vec<u8>| v@)[0] == parts@[0]@);
    }
    if parts.len() >= 2 && bytes_equal(&parts[0], name) {
        proof {
            assert(parts@.map_values(|v: Vec<u8>| v@)[1] == parts@[1]@);
        }
        let value = parts.swap_remove(1);
        Some(value)
    } else {
        None
    }
}

fn bytes_equal(a: &Vec<u8>, b: &[u8]) -> (r: bool)
    ensures
        r == (a@ == b@),
{
    if a.len() != b.len() {
        return false;
    }
    let mut i: usize = 0;
    while i < a.len()
        invariant
            i <= a@.len(),
            a@.len() == b@.len(),
            forall|j: int| 0 <= j < i ==> a@[j] == b@[j],
        decreases a@.len() - i,
    {
        if a[i] != b[i] {
            return false;
        }
        i += 1;
    }
    assert(a@ =~= b@);
    true
}

/// Writes and removes cookies of the site's root path.
#[derive(Clone, Copy, Debug)]
pub struct CookieService;

/// The assignment to `document.cookie` that sets `name` to `value` for
/// `days` days; a negative lifetime removes the cookie.
pub open spec fn assignment(name: Seq<char>, value: Seq<char>, days: int) -> Seq<char> {
    name + "="@ + value + ";max-age="@ + decimal(days * SECS_PER_DAY) + ";path=/"@
}

impl CookieService {
    pub fn new() -> (r: CookieService) {
        CookieService
    }

    /// The assignment that sets `name` to `value` for a year.
    pub fn set(&self, name: &str, value: &str) -> (r: String)
        ensures
            r@ == assignment(name@, value@, DEFAULT_DAYS as int),
    {
        self.set_expiring(name, value, DEFAULT_DAYS)
    }

    /// The assignment that sets `name` to `value` for `days` days.
    pub fn set_expiring(&self, name: &str, value: &str, days: i32) -> (r: String)
        ensures
            r@ == assignment(name@, value@, days as int),
    {
        let mut s = String::new();
        s.append(name);
        s.append("=");
        s.append(value);
        s.append(";max-age=");
        push_decimal(&mut s, (days as i64) * SECS_PER_DAY);
        s.append(";path=/");
        assert(s@ =~= assignment(name@, value@, days as int));
        s
    }

    /// The assignment that removes `name`.
    pub fn remove(&self, name: &str) -> (r: String)
        ensures
            r@ == assignment(name@, ""@, -1),
    {
        self.set_expiring(name, "", -1)
    }

    /// The value of the cookie `name` in the cookie string `cookies` (as
    /// `document.cookie` gives it: `;`-separated `name=value` entries,
    /// spaces before a name ignored). When several entries set `name`, the
    /// last one counts.
    pub fn get(cookies: &str, name: &str) -> (r: Result<String, CookieError>)
        ensures
            match cookie_value(cookies.spec_bytes(), name.spec_bytes()) {
                Some(v) => match r {
                    Ok(s) => encode_utf8(s@) == v,
                    Err(_) => !valid_utf8(v),
                },
                None => r == Err::<String, CookieError>(CookieError::NotFound),
            },
    {
        let cookie_bytes = cookies.as_bytes();
        let entries = split_bytes(cookie_bytes, 59u8);
        let name_bytes = name.as_bytes();
        assert(cookie_bytes@ == cookies.spec_bytes());
        assert(name_bytes@ == name.spec_bytes());
        let ghost es = entries@.map_values(|v: Vec<u8>| v@);
        let mut i: usize = entries.len();
        assert(es.take(i as int) =~= es);
        while i > 0
            invariant
                i <= entries@.len(),
                es == entries@.map_values(|v: Vec<u8>| v@),
                es == split(cookies.spec_bytes(), 59u8),
                name_bytes@ == name.spec_bytes(),
                value_in(es, name_bytes@) == value_in(es.take(i as int), name_bytes@),
            decreases i,
        {
            proof {
                assert(es.take(i as int).drop_last() =~= es.take(i - 1));
                assert(es.take(i as int).last() == entries@[i - 1]@);
            }
            match entry_value_of(&entries[i - 1], name_bytes) {
                Some(v) => {
                    assert(value_in(es.take(i as int), name_bytes@) == Some(v@));
                    assert(cookie_value(cookies.spec_bytes(), name.spec_bytes()) == Some(v@));
                    let vs = v.as_slice();
                    assert(vs@ == v@);
                    return match text_from_utf8(vs) {
                        Some(s) => Ok(s),
                        None => Err(CookieError::NotFound),
                    };
                },
                None => {},
            }
            i -= 1;
        }
        Err(CookieError::NotFound)
    }
}

} // verus!
