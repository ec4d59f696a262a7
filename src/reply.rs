//! Typed replies in a session: reading a decimal id, and deciding what a reply
//! to "pick a training by id" means.

use vstd::prelude::*;
use crate::text::{chars_of, same_text};

verus! {

/// The value of a decimal digit character.
pub open spec fn digit_value(c: char) -> int {
    c as int - '0' as int
}

pub open spec fn is_digit(c: char) -> bool {
    '0' <= c && c <= '9'
}

pub open spec fn all_digits(s: Seq<char>) -> bool {
    forall|i: int| 0 <= i < s.len() ==> is_digit(#[trigger] s[i])
}

/// The number that a string of decimal digits writes.
pub open spec fn digits_value(s: Seq<char>) -> int
    decreases s.len(),
{
    if s.len() == 0 {
        0
    } else {
        10 * digits_value(s.drop_last()) + digit_value(s.last())
    }
}

/// A decimal integer as Rust reads an `i32`: an optional `+` or `-`, then at
/// least one ASCII digit and nothing else, within the range of `i32`.
pub open spec fn parse_i32_spec(s: Seq<char>) -> Option<i32> {
    let neg = s.len() > 0 && s[0] == '-';
    let body = if s.len() > 0 && (s[0] == '-' || s[0] == '+') { s.drop_first() } else { s };
    let v = if neg { -digits_value(body) } else { digits_value(body) };
    if body.len() > 0 && all_digits(body) && i32::MIN <= v <= i32::MAX {
        Some(v as i32)
    } else {
        None
    }
}

proof fn lemma_digits_value_nonneg(s: Seq<char>)
    requires
        all_digits(s),
    ensures
        digits_value(s) >= 0,
    decreases s.len(),
{
    if s.len() > 0 {
        assert(all_digits(s.drop_last())) by {
            assert forall|i: int| 0 <= i < s.drop_last().len() implies is_digit(#[trigger] s.drop_last()[i]) by {
                assert(s.drop_last()[i] == s[i]);
            }
        }
        lemma_digits_value_nonneg(s.drop_last());
        assert(is_digit(s[s.len() - 1]));
    }
}

/// A longer run of digits writes a number at least as large as its prefix.
proof fn lemma_digits_value_grows(s: Seq<char>, n: int)
    requires
        all_digits(s),
        0 <= n <= s.len(),
    ensures
        digits_value(s.subrange(0, n)) <= digits_value(s),
    decreases s.len() - n,
{
    if n < s.len() {
        lemma_digits_value_grows(s, n + 1);
        let p = s.subrange(0, n + 1);
        assert(p.drop_last() =~= s.subrange(0, n));
        assert(all_digits(s.subrange(0, n))) by {
            assert forall|i: int| 0 <= i < n implies is_digit(#[trigger] s.subrange(0, n)[i]) by {
                assert(s.subrange(0, n)[i] == s[i]);
            }
        }
        lemma_digits_value_nonneg(s.subrange(0, n));
        assert(is_digit(s[n]));
        assert(p.last() == s[n]);
    } else {
        assert(s.subrange(0, n) =~= s);
    }
}

/// Reads a decimal `i32` from characters the way `str::parse::<i32>` does.
pub fn parse_i32_chars(cs: &Vec<char>) -> (r: Option<i32>)
    ensures
        r == parse_i32_spec(cs@),
{
    let n = cs.len();
    let mut start: usize = 0;
    let mut neg = false;
    if n > 0 && (cs[0] == '-' || cs[0] == '+') {
        neg = cs[0] == '-';
        start = 1;
    }
    let ghost body = if cs@.len() > 0 && (cs@[0] == '-' || cs@[0] == '+') { cs@.drop_first() } else { cs@ };
    assert(body =~= cs@.subrange(start as int, n as int));
    if start == n {
        return None;
    }
    let limit: i64 = 2147483648;
    let mut acc: i64 = 0;
    let mut i: usize = start;
    while i < n
        invariant
            n == cs@.len(),
            start <= i <= n,
            body == cs@.subrange(start as int, n as int),
            body == (if cs@.len() > 0 && (cs@[0] == '-' || cs@[0] == '+') { cs@.drop_first() } else { cs@ }),
            neg == (cs@.len() > 0 && cs@[0] == '-'),
            all_digits(cs@.subrange(start as int, i as int)),
            acc == digits_value(cs@.subrange(start as int, i as int)),
            0 <= acc <= limit,
            limit == 2147483648,
        decreases n - i,
    {
        let c = cs[i];
        let prefix = Ghost(cs@.subrange(start as int, i as int));
        let next = Ghost(cs@.subrange(start as int, i + 1));
        assert(next@.drop_last() =~= prefix@);
        assert(next@.last() == c);
        if !('0' <= c && c <= '9') {
            assert(body[i - start] == c);
            assert(!is_digit(body[i - start]));
            assert(!all_digits(body));
            return None;
        }
        let d = (c as u32 - '0' as u32) as i64;
        acc = acc * 10 + d;
        assert(acc == digits_value(next@));
        i = i + 1;
        assert(all_digits(next@)) by {
            assert forall|k: int| 0 <= k < next@.len() implies is_digit(#[trigger] next@[k]) by {
                if k < prefix@.len() {
                    assert(next@[k] == prefix@[k]);
                }
            }
        }
        if acc > limit {
            proof {
                if all_digits(body) {
                    lemma_digits_value_grows(body, (i - start) as int);
                    assert(body.subrange(0, (i - start) as int) =~= next@);
                }
            }
            return None;
        }
    }
    assert(cs@.subrange(start as int, i as int) =~= body);
    if neg {
        Some((-acc) as i32)
    } else if acc > 2147483647 {
        None
    } else {
        Some(acc as i32)
    }
}

/// Reads a decimal `i32` the way `str::parse::<i32>` does.
pub fn parse_i32(s: &str) -> (r: Option<i32>)
    ensures
        r == parse_i32_spec(s@),
{
    let cs = chars_of(s);
    parse_i32_chars(&cs)
}

/// The pieces of a text between commas, as `str::split(',')` gives them: one
/// more piece than there are commas, empty pieces included.
pub open spec fn split_commas(s: Seq<char>) -> Seq<Seq<char>>
    decreases s.len(),
{
    if s.len() == 0 {
        seq![Seq::<char>::empty()]
    } else {
        let p = split_commas(s.drop_last());
        if s.last() == ',' {
            p.push(Seq::<char>::empty())
        } else {
            p.update(p.len() - 1, p.last().push(s.last()))
        }
    }
}

/// The ids that the pieces write, if every piece is a decimal `i32`.
pub open spec fn ids_of(pieces: Seq<Seq<char>>) -> Option<Seq<i32>>
    decreases pieces.len(),
{
    if pieces.len() == 0 {
        Some(Seq::<i32>::empty())
    } else {
        match (ids_of(pieces.drop_last()), parse_i32_spec(pieces.last())) {
            (Some(v), Some(x)) => Some(v.push(x)),
            _ => None,
        }
    }
}

/// A piece that is not an id makes every longer list of pieces fail too.
proof fn lemma_ids_of_fails_on(pieces: Seq<Seq<char>>, n: int)
    requires
        0 <= n <= pieces.len(),
        ids_of(pieces.subrange(0, n)) is None,
    ensures
        ids_of(pieces) is None,
    decreases pieces.len() - n,
{
    if n < pieces.len() {
        assert(pieces.subrange(0, n + 1).drop_last() =~= pieces.subrange(0, n));
        lemma_ids_of_fails_on(pieces, n + 1);
    } else {
        assert(pieces.subrange(0, n) =~= pieces);
    }
}

/// Reads a comma-separated list of ids, such as "3,17,4". Any piece that is
/// not a decimal `i32`, an empty one included, refuses the whole list.
pub fn parse_id_list(value: &str) -> (r: Option<Vec<i32>>)
    ensures
        match r {
            Some(v) => ids_of(split_commas(value@)) == Some(v@),
            None => ids_of(split_commas(value@)) is None,
        },
{
    let cs = chars_of(value);
    let n = cs.len();
    let mut done: Vec<Vec<char>> = Vec::new();
    let mut cur: Vec<char> = Vec::new();
    let mut i: usize = 0;
    while i < n
        invariant
            cs@ == value@,
            n == cs@.len(),
            i <= n,
            done@.map_values(|p: Vec<char>| p@).push(cur@) == split_commas(value@.subrange(0, i as int)),
        decreases n - i,
    {
        let ghost pre = value@.subrange(0, i as int);
        let ghost next = value@.subrange(0, i + 1);
        assert(next.drop_last() =~= pre);
        assert(next.last() == cs@[i as int]);
        let ghost old_done = done@.map_values(|p: Vec<char>| p@);
        if cs[i] == ',' {
            let piece = cur;
            cur = Vec::new();
            done.push(piece);
            assert(done@.map_values(|p: Vec<char>| p@) =~= old_done.push(piece@));
            assert(done@.map_values(|p: Vec<char>| p@).push(cur@) =~= split_commas(next));
        } else {
            cur.push(cs[i]);
            assert(done@.map_values(|p: Vec<char>| p@).push(cur@) =~= split_commas(next));
        }
        i = i + 1;
    }
    assert(value@.subrange(0, n as int) =~= value@);
    let ghost pieces = split_commas(value@);
    assert(pieces.last() == cur@);
    assert(pieces.drop_last() =~= done@.map_values(|p: Vec<char>| p@));
    let mut ids: Vec<i32> = Vec::new();
    let m = done.len();
    let mut k: usize = 0;
    assert(pieces.subrange(0, 0) =~= Seq::<Seq<char>>::empty());
    while k < m
        invariant
            m == done@.len(),
            pieces == split_commas(value@),
            pieces.last() == cur@,
            pieces.len() == m + 1,
            k <= m,
            forall|j: int| 0 <= j < m ==> pieces[j] == (#[trigger] done@[j])@,
            ids_of(pieces.subrange(0, k as int)) == Some(ids@),
        decreases m - k,
    {
        let ghost sub = pieces.subrange(0, k + 1);
        assert(sub.drop_last() =~= pieces.subrange(0, k as int));
        assert(sub.last() == done@[k as int]@);
        match parse_i32_chars(&done[k]) {
            Some(x) => {
                ids.push(x);
            }
            None => {
                proof {
                    assert(ids_of(sub) is None);
                    lemma_ids_of_fails_on(pieces, k + 1);
                }
                return None;
            }
        }
        k = k + 1;
    }
    let ghost all = pieces.subrange(0, m + 1);
    assert(all.drop_last() =~= pieces.subrange(0, m as int));
    assert(all =~= pieces);
    match parse_i32_chars(&cur) {
        Some(x) => {
            ids.push(x);
            Some(ids)
        }
        None => None,
    }
}

/// The lowercase form of a text, as `str::to_lowercase` computes it.
pub uninterp spec fn lower_of(s: Seq<char>) -> Seq<char>;

/// Relies on `str::to_lowercase`: a function of the characters alone.
#[verifier::external_body]
fn lowercase(s: &str) -> (r: String)
    ensures
        r@ == lower_of(s@),
{
    s.to_lowercase()
}

/// What a reply to "pick a training by id" means.
#[derive(Clone, Copy, Debug, PartialEq, Eq, Structural)]
pub enum TrainingReply {
    /// The actor typed "cancel", in any case.
    Cancel,
    /// A listed training's id.
    Chosen(i32),
    /// Not a number: ask again.
    NotANumber,
    /// A number that is not one of the listed ids: ask again.
    UnknownId,
}

pub open spec fn training_reply_spec(lowered: Seq<char>, content: Seq<char>, ids: Seq<i32>) -> TrainingReply {
    if lowered == "cancel"@ {
        TrainingReply::Cancel
    } else {
        match parse_i32_spec(content) {
            None => TrainingReply::NotANumber,
            Some(v) => if ids.contains(v) {
                TrainingReply::Chosen(v)
            } else {
                TrainingReply::UnknownId
            },
        }
    }
}

impl TrainingReply {
    /// The prompt sent back for a reply that asks again.
    pub fn retry_message(&self) -> (r: Option<&'static str>)
        ensures
            match self {
                TrainingReply::NotANumber => r is Some && r.unwrap()@ == "Could not parse id. Try again"@,
                TrainingReply::UnknownId => r is Some && r.unwrap()@ == "Not a valid id. Try again"@,
                _ => r is None,
            },
    {
        match self {
            TrainingReply::NotANumber => Some("Could not parse id. Try again"),
            TrainingReply::UnknownId => Some("Not a valid id. Try again"),
            _ => None,
        }
    }
}

/// Decides a reply, given its lowercase form, its text, and the listed ids.
pub fn decide_training_reply(lowered: &str, content: &str, ids: &Vec<i32>) -> (r: TrainingReply)
    ensures
        r == training_reply_spec(lowered@, content@, ids@),
{
    if same_text(lowered, "cancel") {
        return TrainingReply::Cancel;
    }
    match parse_i32(content) {
        None => TrainingReply::NotANumber,
        Some(v) => {
            let mut i: usize = 0;
            while i < ids.len()
                invariant
                    lowered@ != "cancel"@,
                    parse_i32_spec(content@) == Some(v),
                    i <= ids@.len(),
                    forall|k: int| 0 <= k < i ==> ids@[k] != v,
                decreases ids@.len() - i,
            {
                if ids[i] == v {
                    assert(ids@[i as int] == v);
                    assert(ids@.contains(v));
                    return TrainingReply::Chosen(v);
                }
                i = i + 1;
            }
            TrainingReply::UnknownId
        }
    }
}

/// Decides a reply to "pick a training by id".
pub fn read_training_reply(content: &str, ids: &Vec<i32>) -> (r: TrainingReply)
    ensures
        r == training_reply_spec(lower_of(content@), content@, ids@),
{
    let lowered = lowercase(content);
    decide_training_reply(lowered.as_str(), content, ids)
}

} // verus!
