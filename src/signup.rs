//! Registering a game account, and the checks that a signup for a raid must
//! pass.

use vstd::prelude::*;

verus! {

pub open spec fn is_ascii_letter(c: char) -> bool {
    ('a' <= c && c <= 'z') || ('A' <= c && c <= 'Z')
}

pub open spec fn is_ascii_digit(c: char) -> bool {
    '0' <= c && c <= '9'
}

/// A Guild Wars 2 account name: 3 to 27 ASCII letters, a dot, 4 ASCII digits,
/// and nothing else.
pub open spec fn is_account_name(s: Seq<char>) -> bool {
    let n = s.len() as int;
    &&& 8 <= n <= 32
    &&& forall|i: int| 0 <= i < n - 5 ==> is_ascii_letter(#[trigger] s[i])
    &&& s[n - 5] == '.'
    &&& forall|i: int| n - 4 <= i < n ==> is_ascii_digit(#[trigger] s[i])
}

/// The pattern of an account name.
pub open spec fn account_pattern() -> Seq<char> {
    "^[a-zA-Z]{3,27}\\.[0-9]{4}$"@
}

/// Relies on regex's `Regex::new`, which accepts this pattern (so the
/// `unwrap` does not panic), and `Regex::is_match`, which finds a match
/// anywhere in the text; with `^` and `$` and no multi-line flag the match
/// must span the whole text.
#[verifier::external_body]
fn matches_account_pattern(pattern: &str, s: &str) -> (r: bool)
    requires
        pattern@ == account_pattern(),
    ensures
        r == is_account_name(s@),
{
    regex::Regex::new(pattern).unwrap().is_match(s)
}

/// Whether `name` looks like a Guild Wars 2 account name.
pub fn is_gw2_account_name(name: &str) -> (r: bool)
    ensures
        r == is_account_name(name@),
{
    matches_account_pattern("^[a-zA-Z]{3,27}\\.[0-9]{4}$", name)
}

/// What a register command does.
#[derive(Clone, Copy, Debug, PartialEq, Eq, Structural)]
pub enum RegisterAction {
    /// The name is not an account name: tell the user and store nothing.
    RejectName,
    /// The user exists: store the new account name.
    UpdateAccount,
    /// The user is new: create it with the account name.
    CreateUser,
}

/// Decides a register command from the account name and whether the user is
/// already stored.
pub fn register_action(name: &str, user_exists: bool) -> (r: RegisterAction)
    ensures
        r == if !is_account_name(name@) {
            RegisterAction::RejectName
        } else if user_exists {
            RegisterAction::UpdateAccount
        } else {
            RegisterAction::CreateUser
        },
{
    if !is_gw2_account_name(name) {
        RegisterAction::RejectName
    } else if user_exists {
        RegisterAction::UpdateAccount
    } else {
        RegisterAction::CreateUser
    }
}

/// Why a signup is refused.
#[derive(Clone, Copy, Debug, PartialEq, Eq, Structural)]
pub enum JoinRefusal {
    NotRegistered,
    NoOpenRaid,
    TierRequirementFailed,
    AlreadySignedUp,
}

impl JoinRefusal {
    /// The notice shown for the refusal.
    pub fn message(&self) -> (r: &'static str)
        ensures
            r@ == match *self {
                JoinRefusal::NotRegistered => "User not found. Please use the register command first"@,
                JoinRefusal::NoOpenRaid => "No open training with that id found"@,
                JoinRefusal::TierRequirementFailed => "Tier requirement failed"@,
                JoinRefusal::AlreadySignedUp => "Already signed up for this training"@,
            },
    {
        match self {
            JoinRefusal::NotRegistered => "User not found. Please use the register command first",
            JoinRefusal::NoOpenRaid => "No open training with that id found",
            JoinRefusal::TierRequirementFailed => "Tier requirement failed",
            JoinRefusal::AlreadySignedUp => "Already signed up for this training",
        }
    }
}

/// The checks of a signup, in the order they are made: the user is
/// registered, the raid is open, the user meets its tier, and is not signed
/// up yet. The first that fails is the refusal.
pub fn check_join(registered: bool, raid_open: bool, tier_met: bool, signed_up: bool) -> (r: Result<(), JoinRefusal>)
    ensures
        r == if !registered {
            Err(JoinRefusal::NotRegistered)
        } else if !raid_open {
            Err(JoinRefusal::NoOpenRaid)
        } else if !tier_met {
            Err(JoinRefusal::TierRequirementFailed)
        } else if signed_up {
            Err(JoinRefusal::AlreadySignedUp)
        } else {
            Ok::<(), JoinRefusal>(())
        },
{
    if !registered {
        Err(JoinRefusal::NotRegistered)
    } else if !raid_open {
        Err(JoinRefusal::NoOpenRaid)
    } else if !tier_met {
        Err(JoinRefusal::TierRequirementFailed)
    } else if signed_up {
        Err(JoinRefusal::AlreadySignedUp)
    } else {
        Ok(())
    }
}

/// The pages of a list of `n` entries shown `size` to a message, taken from
/// the end: page `k` holds the entries from `n - size * (k + 1)` (or 0) up to
/// `n - size * k`.
pub open spec fn page_bounds(n: int, size: int, k: int) -> (int, int) {
    (if n - size * (k + 1) > 0 { n - size * (k + 1) } else { 0 }, n - size * k)
}

/// The pages of `n` entries, `size` to a page, counted from the end as
/// `rchunks` does; a list of several pages asks for confirmation first.
pub fn pages_from_end(n: usize, size: usize) -> (r: Vec<(usize, usize)>)
    requires
        size > 0,
    ensures
        r@.len() == (n + size - 1) / (size as int),
        forall|k: int| 0 <= k < r@.len() ==> (#[trigger] r@[k]).0 as int == page_bounds(n as int, size as int, k).0
            && r@[k].1 as int == page_bounds(n as int, size as int, k).1,
{
    let mut r: Vec<(usize, usize)> = Vec::new();
    let mut end: usize = n;
    proof {
        assert((n - end) % (size as int) == 0 && (n - end) / (size as int) == 0) by (nonlinear_arith)
            requires
                n == end,
                size > 0,
        ;
    }
    while end > 0
        invariant
            size > 0,
            end <= n,
            (n - end) % (size as int) == 0,
            r@.len() == (n - end) / (size as int),
            forall|k: int| 0 <= k < r@.len() ==> (#[trigger] r@[k]).0 as int == page_bounds(n as int, size as int, k).0
                && r@[k].1 as int == page_bounds(n as int, size as int, k).1,
        decreases end,
    {
        let start: usize = if end > size { end - size } else { 0 };
        let ghost k = r@.len() as int;
        proof {
            assert(n - end == size * k) by (nonlinear_arith)
                requires
                    (n - end) % (size as int) == 0,
                    k == (n - end) / (size as int),
                    size > 0,
            ;
            assert(size * (k + 1) == size * k + size) by (nonlinear_arith);
        }
        r.push((start, end));
        proof {
            if end > size {
                assert((n - (end - size)) == size * (k + 1));
                assert((n - (end - size)) % (size as int) == 0) by (nonlinear_arith)
                    requires
                        (n - (end - size)) == size * (k + 1),
                        size > 0,
                ;
                assert((n - (end - size)) / (size as int) == k + 1) by (nonlinear_arith)
                    requires
                        (n - (end - size)) == size * (k + 1),
                        size > 0,
                ;
            }
        }
        if end > size {
            end = end - size;
        } else {
            proof {
                assert((n + size - 1) / (size as int) == k + 1) by (nonlinear_arith)
                    requires
                        n - end == size * k,
                        0 < end <= size,
                        size > 0,
                ;
            }
            return r;
        }
    }
    proof {
        assert((n + size - 1) / (size as int) == (n as int) / (size as int)) by (nonlinear_arith)
            requires
                (n as int) % (size as int) == 0,
                size > 0,
        ;
    }
    r
}

} // verus!
