//! What the raid commands compute before they touch the store: the raids a
//! state change applies to, and the codes listed in a command option.

use vstd::prelude::*;
use crate::models::Raid;
use crate::order::{before, order_by_keys, sorted_order};
use crate::reply::split_commas;
use crate::text::{chars_of, string_from_chars};

verus! {

/// Position `i` holds the first raid with its id.
pub open spec fn first_of_id(raids: Seq<Raid>, i: int) -> bool {
    &&& 0 <= i < raids.len()
    &&& forall|j: int| 0 <= j < i ==> raids[j].id != raids[i].id
}

/// Raid `a` is listed before raid `b`: earlier, or at the same time with a
/// smaller id.
pub open spec fn listed_before(a: Raid, b: Raid) -> bool {
    a.date.secs < b.date.secs || (a.date.secs == b.date.secs && a.id < b.id)
}

/// The positions of the first raid of each id, in order.
fn first_positions(raids: &Vec<Raid>) -> (r: Vec<usize>)
    ensures
        forall|k: int| 0 <= k < r@.len() ==> first_of_id(raids@, #[trigger] r@[k] as int),
        forall|x: usize| first_of_id(raids@, x as int) ==> #[trigger] r@.contains(x),
        forall|a: int, b: int| 0 <= a < b < r@.len() ==> #[trigger] r@[a] < #[trigger] r@[b],
{
    let mut r: Vec<usize> = Vec::new();
    let mut i: usize = 0;
    while i < raids.len()
        invariant
            i <= raids@.len(),
            forall|k: int| 0 <= k < r@.len() ==> first_of_id(raids@, #[trigger] r@[k] as int) && r@[k] < i,
            forall|x: usize| x < i && first_of_id(raids@, x as int) ==> #[trigger] r@.contains(x),
            forall|a: int, b: int| 0 <= a < b < r@.len() ==> #[trigger] r@[a] < #[trigger] r@[b],
        decreases raids@.len() - i,
    {
        let id = raids[i].id;
        let mut j: usize = 0;
        let mut seen = false;
        while j < i
            invariant
                i < raids@.len(),
                id == raids@[i as int].id,
                j <= i,
                !seen ==> forall|k: int| 0 <= k < j ==> raids@[k].id != id,
                seen ==> !first_of_id(raids@, i as int),
            decreases i - j,
        {
            if raids[j].id == id {
                seen = true;
            }
            j = j + 1;
        }
        if !seen {
            let ghost old_r = r@;
            r.push(i);
            proof {
                assert forall|x: usize| x < i + 1 && first_of_id(raids@, x as int) implies #[trigger] r@.contains(x) by {
                    if x == i {
                        assert(r@[old_r.len() as int] == i);
                    } else {
                        assert(old_r.contains(x));
                        let k = choose|k: int| 0 <= k < old_r.len() && old_r[k] == x;
                        assert(r@[k] == x);
                    }
                }
            }
        } else {
            proof {
                assert forall|x: usize| x < i + 1 && first_of_id(raids@, x as int) implies #[trigger] r@.contains(x) by {
                    if x == i {
                    }
                }
            }
        }
        i = i + 1;
    }
    r
}

/// The raids a state change applies to: each id once (its first raid), from
/// the earliest to the latest, same times by id.
pub fn change_targets(raids: &Vec<Raid>) -> (r: Vec<usize>)
    ensures
        forall|k: int| 0 <= k < r@.len() ==> first_of_id(raids@, #[trigger] r@[k] as int),
        forall|x: usize| first_of_id(raids@, x as int) ==> #[trigger] r@.contains(x),
        forall|a: int, b: int| 0 <= a < b < r@.len()
            ==> listed_before(raids@[#[trigger] r@[a] as int], raids@[#[trigger] r@[b] as int]),
{
    let firsts = first_positions(raids);
    let mut keys: Vec<(i64, i64)> = Vec::new();
    let mut i: usize = 0;
    while i < firsts.len()
        invariant
            i <= firsts@.len(),
            forall|k: int| 0 <= k < firsts@.len() ==> first_of_id(raids@, #[trigger] firsts@[k] as int),
            keys@.len() == i,
            forall|k: int| 0 <= k < i ==> #[trigger] keys@[k] == (raids@[firsts@[k] as int].date.secs, raids@[firsts@[k] as int].id as i64),
        decreases firsts@.len() - i,
    {
        let p = firsts[i];
        keys.push((raids[p].date.secs, raids[p].id as i64));
        i = i + 1;
    }
    let order = order_by_keys(&keys);
    assert(sorted_order(keys@, order@));
    let mut r: Vec<usize> = Vec::new();
    let mut k: usize = 0;
    while k < order.len()
        invariant
            sorted_order(keys@, order@),
            keys@.len() == firsts@.len(),
            forall|m: int| 0 <= m < firsts@.len() ==> first_of_id(raids@, #[trigger] firsts@[m] as int),
            k <= order@.len(),
            r@.len() == k,
            forall|m: int| 0 <= m < k ==> #[trigger] r@[m] == firsts@[order@[m] as int],
        decreases order@.len() - k,
    {
        let q = order[k];
        r.push(firsts[q]);
        k = k + 1;
    }
    proof {
        assert forall|m: int| 0 <= m < r@.len() implies first_of_id(raids@, #[trigger] r@[m] as int) by {
            assert(order@[m] < keys@.len());
        }
        assert forall|x: usize| first_of_id(raids@, x as int) implies #[trigger] r@.contains(x) by {
            assert(firsts@.contains(x));
            let f = choose|f: int| 0 <= f < firsts@.len() && firsts@[f] == x;
            assert(order@.contains(f as usize));
            let m = choose|m: int| 0 <= m < order@.len() && order@[m] == f as usize;
            assert(r@[m] == x);
        }
        assert forall|a: int, b: int| 0 <= a < b < r@.len()
            implies listed_before(raids@[#[trigger] r@[a] as int], raids@[#[trigger] r@[b] as int]) by {
            let qa = order@[a] as int;
            let qb = order@[b] as int;
            assert(before(keys@, order@[a] as int, order@[b] as int));
            let pa = firsts@[qa] as int;
            let pb = firsts@[qb] as int;
            assert(keys@[qa] == (raids@[pa].date.secs, raids@[pa].id as i64));
            assert(keys@[qb] == (raids@[pb].date.secs, raids@[pb].id as i64));
            if qa < qb {
                assert(firsts@[qa] < firsts@[qb]);
            } else if qb < qa {
                assert(firsts@[qb] < firsts@[qa]);
            }
            if raids@[pa].id == raids@[pb].id && pa != pb {
                if pa < pb {
                    assert(first_of_id(raids@, pb));
                } else {
                    assert(first_of_id(raids@, pa));
                }
            }
        }
    }
    r
}

/// Text with white space taken off both ends, as `str::trim` does it.
pub uninterp spec fn trimmed(s: Seq<char>) -> Seq<char>;

/// Relies on `str::trim`: the result depends on the characters alone.
#[verifier::external_body]
fn trim_text(s: &str) -> (r: String)
    ensures
        r@ == trimmed(s@),
{
    s.trim().to_string()
}

/// The codes in an option such as "dps, heal,tank": the pieces between
/// commas, each trimmed.
pub fn listed_codes(value: &str) -> (r: Vec<String>)
    ensures
        r@.len() == split_commas(value@).len(),
        forall|k: int| 0 <= k < r@.len() ==> (#[trigger] r@[k])@ == trimmed(split_commas(value@)[k]),
{
    let cs = chars_of(value);
    let n = cs.len();
    let mut done: Vec<String> = Vec::new();
    let mut cur: Vec<char> = Vec::new();
    let mut i: usize = 0;
    while i < n
        invariant
            cs@ == value@,
            n == cs@.len(),
            i <= n,
            split_commas(value@.subrange(0, i as int)).len() == done@.len() + 1,
            split_commas(value@.subrange(0, i as int)).last() == cur@,
            forall|k: int| 0 <= k < done@.len()
                ==> (#[trigger] done@[k])@ == trimmed(split_commas(value@.subrange(0, i as int))[k]),
        decreases n - i,
    {
        let ghost pre = value@.subrange(0, i as int);
        let ghost next = value@.subrange(0, i + 1);
        assert(next.drop_last() =~= pre);
        assert(next.last() == cs@[i as int]);
        if cs[i] == ',' {
            let piece = string_from_chars(&cur);
            done.push(trim_text(piece.as_str()));
            cur = Vec::new();
            assert forall|k: int| 0 <= k < done@.len()
                implies (#[trigger] done@[k])@ == trimmed(split_commas(next)[k]) by {
                if k < done@.len() - 1 {
                    assert(split_commas(next)[k] == split_commas(pre)[k]);
                }
            }
        } else {
            cur.push(cs[i]);
            assert forall|k: int| 0 <= k < done@.len()
                implies (#[trigger] done@[k])@ == trimmed(split_commas(next)[k]) by {
                assert(split_commas(next)[k] == split_commas(pre)[k]);
            }
        }
        i = i + 1;
    }
    assert(value@.subrange(0, n as int) =~= value@);
    let last = string_from_chars(&cur);
    let ghost before_push = done@;
    done.push(trim_text(last.as_str()));
    assert forall|k: int| 0 <= k < done@.len()
        implies (#[trigger] done@[k])@ == trimmed(split_commas(value@)[k]) by {
        if k < before_push.len() {
            assert(done@[k] == before_push[k]);
        }
    }
    done
}

} // verus!
