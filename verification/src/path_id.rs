use vstd::prelude::*;
use vstd::string::*;
use crate::report::is_hex;
use crate::report::is_hex_char;
use crate::report::to_chars;

verus! {

/// End of the maximal run of hexadecimal digits starting at `k`.
pub open spec fn hex_end(s: Seq<char>, k: int) -> int
    decreases s.len() - k,
{
    if k < s.len() && is_hex_char(s[k]) {
        hex_end(s, k + 1)
    } else {
        k
    }
}

/// A sensor directory component `/28-<hex>/` starts at `p`: the literal
/// `/28-`, at least one hexadecimal digit, and a path separator right
/// after the maximal hexadecimal run.
pub open spec fn id_match_at(s: Seq<char>, p: int) -> bool {
    let e = hex_end(s, p + 4);
    &&& 0 <= p
    &&& p + 4 < s.len()
    &&& s[p] == '/'
    &&& s[p + 1] == '2'
    &&& s[p + 2] == '8'
    &&& s[p + 3] == '-'
    &&& is_hex_char(s[p + 4])
    &&& e < s.len()
    &&& s[e] == '/'
}

/// The identifier captured at `p`: the hexadecimal run after `/28-`.
pub open spec fn id_at(s: Seq<char>, p: int) -> Seq<char> {
    s.subrange(p + 4, hex_end(s, p + 4))
}

pub open spec fn has_path_id(s: Seq<char>) -> bool {
    exists|p: int| id_match_at(s, p)
}

/// `p` is the start of the last sensor directory component in `s`.
pub open spec fn is_last_id_pos(s: Seq<char>, p: int) -> bool {
    id_match_at(s, p) && (forall|q: int| p < q ==> !id_match_at(s, q))
}

pub open spec fn path_id_pos(s: Seq<char>) -> int {
    choose|p: int| is_last_id_pos(s, p)
}

/// The sensor identifier a path carries: the hexadecimal suffix of its
/// last `/28-<hex>/` component (meaningful only when `has_path_id(s)`).
pub open spec fn path_id(s: Seq<char>) -> Seq<char> {
    id_at(s, path_id_pos(s))
}

proof fn lemma_last_id_agrees(s: Seq<char>, p: int)
    requires
        is_last_id_pos(s, p),
    ensures
        path_id_pos(s) == p,
{
    assert(exists|q: int| is_last_id_pos(s, q));
    let q = path_id_pos(s);
    assert(is_last_id_pos(s, q));
    if q < p {
        assert(!id_match_at(s, p));
    }
    if p < q {
        assert(!id_match_at(s, q));
    }
}

fn hex_run_end(s: &Vec<char>, k: usize) -> (e: usize)
    requires
        k <= s@.len(),
    ensures
        e as int == hex_end(s@, k as int),
        k <= e <= s@.len(),
{
    let n = s.len();
    let mut e = k;
    while e < n && is_hex(s[e])
        invariant
            k <= e <= n,
            n == s@.len(),
            hex_end(s@, e as int) == hex_end(s@, k as int),
        decreases n - e,
    {
        e = e + 1;
    }
    e
}

fn check_id_match_at(s: &Vec<char>, p: usize) -> (b: bool)
    requires
        p <= s@.len(),
    ensures
        b == id_match_at(s@, p as int),
{
    let n = s.len();
    if n - p < 5 {
        return false;
    }
    if s[p] != '/' || s[p + 1] != '2' || s[p + 2] != '8' || s[p + 3] != '-' {
        return false;
    }
    if !is_hex(s[p + 4]) {
        return false;
    }
    let e = hex_run_end(s, p + 4);
    if e >= n {
        return false;
    }
    s[e] == '/'
}

fn find_last_id(s: &Vec<char>) -> (r: Option<usize>)
    ensures
        match r {
            Some(p) => is_last_id_pos(s@, p as int),
            None => !has_path_id(s@),
        },
{
    let n = s.len();
    let mut p: usize = n;
    proof {
        assert forall|q: int| p as int <= q implies !id_match_at(s@, q) by {
            if id_match_at(s@, q) {
                assert(q + 4 < s@.len());
            }
        }
    }
    while p > 0
        invariant
            p <= n,
            n == s@.len(),
            forall|q: int| p as int <= q ==> !id_match_at(s@, q),
        decreases p,
    {
        p = p - 1;
        if check_id_match_at(s, p) {
            return Some(p);
        }
    }
    proof {
        assert forall|q: int| true implies !id_match_at(s@, q) by {
            if id_match_at(s@, q) {
                assert(q >= 0);
            }
        }
    }
    None
}

/// Extract the sensor identifier from a report file's path: the
/// hexadecimal suffix of the last `/28-<hex>/` directory component, as
/// the directory naming convention of the one-wire device family gives it.
pub fn sensor_id_from_path(path: &str) -> (r: Option<String>)
    ensures
        match r {
            Some(id) => has_path_id(path@) && id@ == path_id(path@),
            None => !has_path_id(path@),
        },
{
    let chars = to_chars(path);
    let _len: usize = chars.len();
    match find_last_id(&chars) {
        None => None,
        Some(p) => {
            proof {
                lemma_last_id_agrees(chars@, p as int);
            }
            let e = hex_run_end(&chars, p + 4);
            let sub = path.substring_char(p + 4, e);
            Some(sub.to_owned())
        },
    }
}

} // verus!
