//! Picking one of several candidates, or none where the pick is not clear.

use crate::models::Account;
#[allow(unused_imports)]
use crate::models::AccountView;
#[allow(unused_imports)]
use crate::prompt_text::same_username;
use crate::prompt_text::usernames_match;
#[allow(unused_imports)]
use crate::text::trimmed;
#[allow(unused_imports)]
use crate::text_laws::{law_same_but_for_case, same_letter};
use vstd::prelude::*;

verus! {

/// Where the one true state stands.
#[derive(Debug, Clone, Copy, PartialEq, Eq, Structural)]
pub enum UniqueTrueIndex {
    Nowhere,
    One(usize),
    Multiple,
}

/// How often and where `states` is true.
pub open spec fn unique_true(states: Seq<bool>) -> UniqueTrueIndex
    decreases states.len(),
{
    if states.len() == 0 {
        UniqueTrueIndex::Nowhere
    } else if !states.last() {
        unique_true(states.drop_last())
    } else {
        match unique_true(states.drop_last()) {
            UniqueTrueIndex::Nowhere => UniqueTrueIndex::One((states.len() - 1) as usize),
            _ => UniqueTrueIndex::Multiple,
        }
    }
}

proof fn lemma_multiple_stays(states: Seq<bool>, n: int)
    requires
        0 <= n <= states.len(),
        unique_true(states.take(n)) == UniqueTrueIndex::Multiple,
    ensures
        unique_true(states) == UniqueTrueIndex::Multiple,
    decreases states.len(),
{
    if n == states.len() {
        assert(states.take(n) =~= states);
    } else {
        assert(states.drop_last().take(n) =~= states.take(n));
        lemma_multiple_stays(states.drop_last(), n);
    }
}

/// `unique_true` finds exactly the index that alone is true.
pub proof fn law_unique_true(states: Seq<bool>, index: usize)
    requires
        states.len() <= usize::MAX,
    ensures
        unique_true(states) == UniqueTrueIndex::One(index) <==> index < states.len()
            && states[index as int] && (forall|j: int|
            0 <= j < states.len() && j != index ==> !states[j]),
        unique_true(states) == UniqueTrueIndex::Nowhere <==> forall|j: int|
            0 <= j < states.len() ==> !states[j],
    decreases states.len(),
{
    if states.len() > 0 {
        let head = states.drop_last();
        law_unique_true(head, index);
        law_unique_true(head, (states.len() - 1) as usize);
        assert(forall|j: int| 0 <= j < head.len() ==> head[j] == states[j]);
        if states.last() {
            if unique_true(head) == UniqueTrueIndex::Nowhere {
                assert(forall|j: int| 0 <= j < states.len() - 1 ==> states[j] == head[j]);
            } else {
                let j = choose|j: int| 0 <= j < head.len() && head[j];
                assert(states[j] && states[states.len() - 1]);
            }
        } else if unique_true(head) == UniqueTrueIndex::One(index) {
            assert(states[index as int] == head[index as int]);
        }
    }
}

/// `unique_true`, computed.
pub fn unique_true_index(states: &[bool]) -> (out: UniqueTrueIndex)
    ensures
        out == unique_true(states@),
{
    let mut selected: Option<usize> = None;
    let mut i: usize = 0;
    assert(states@.take(0) =~= Seq::<bool>::empty());
    while i < states.len()
        invariant
            i <= states@.len(),
            unique_true(states@.take(i as int)) == match selected {
                Some(index) => UniqueTrueIndex::One(index),
                None => UniqueTrueIndex::Nowhere,
            },
        decreases states@.len() - i,
    {
        assert(states@.take(i + 1).drop_last() =~= states@.take(i as int));
        if states[i] {
            if selected.is_some() {
                proof {
                    lemma_multiple_stays(states@, i + 1);
                }
                return UniqueTrueIndex::Multiple;
            }
            selected = Some(i);
        }
        i += 1;
    }
    assert(states@.take(states@.len() as int) =~= states@);
    match selected {
        Some(index) => UniqueTrueIndex::One(index),
        None => UniqueTrueIndex::Nowhere,
    }
}

/// The index that alone is true.
pub open spec fn sole_true(states: Seq<bool>) -> Option<usize> {
    match unique_true(states) {
        UniqueTrueIndex::One(index) => Some(index),
        _ => None,
    }
}

/// `sole_true`, computed.
pub fn unique_frontmost_index(states: &[bool]) -> (out: Option<usize>)
    ensures
        out == sole_true(states@),
{
    match unique_true_index(states) {
        UniqueTrueIndex::One(index) => Some(index),
        _ => None,
    }
}

// ---------------------------------------------------------------------------
// Accounts
// ---------------------------------------------------------------------------

/// An account that a prompt for `email` may mean.
pub open spec fn account_meant(account: AccountView, email: Seq<char>) -> bool {
    account.enabled && same_username(account.username, email)
}

/// Which accounts a prompt for `email` may mean.
pub open spec fn accounts_meant(accounts: Seq<AccountView>, email: Seq<char>) -> Seq<bool> {
    accounts.map_values(|account: AccountView| account_meant(account, email))
}

/// The account that a prompt for `email` means: the only enabled one of that name.
/// Where there is none, or more than one, no account is meant.
pub fn select_account(accounts: &[Account], email: &str) -> (out: Option<usize>)
    ensures
        out == sole_true(accounts_meant(accounts.deep_view(), email@)),
{
    let mut meant: Vec<bool> = Vec::new();
    let mut i: usize = 0;
    while i < accounts.len()
        invariant
            i <= accounts@.len(),
            meant@.len() == i,
            forall|j: int|
                0 <= j < i ==> #[trigger] meant@[j] == account_meant(
                    accounts@[j].deep_view(),
                    email@,
                ),
        decreases accounts@.len() - i,
    {
        let account: &Account = &accounts[i];
        meant.push(account.enabled && usernames_match(account.username.as_str(), email));
        i += 1;
    }
    assert(meant@ =~= accounts_meant(accounts.deep_view(), email@));
    unique_frontmost_index(meant.as_slice())
}

/// An account is chosen exactly where it is meant and no other is.
pub proof fn law_chosen_account_is_the_only_one(
    accounts: Seq<AccountView>,
    email: Seq<char>,
    index: usize,
)
    requires
        accounts.len() <= usize::MAX,
    ensures
        sole_true(accounts_meant(accounts, email)) == Some(index) <==> {
            &&& index < accounts.len()
            &&& account_meant(accounts[index as int], email)
            &&& forall|j: int|
                0 <= j < accounts.len() && j != index ==> !account_meant(
                    #[trigger] accounts[j],
                    email,
                )
        },
{
    let meant = accounts_meant(accounts, email);
    law_unique_true(meant, index);
    assert(forall|j: int|
        0 <= j < accounts.len() ==> meant[j] == account_meant(#[trigger] accounts[j], email));
    if sole_true(meant) != Some(index) && index < accounts.len() && account_meant(
        accounts[index as int],
        email,
    ) {
        let j = choose|j: int| 0 <= j < meant.len() && j != index && meant[j];
        assert(account_meant(accounts[j], email));
    }
}

// ---------------------------------------------------------------------------
// Ranks
// ---------------------------------------------------------------------------

/// Candidate `i` has a rank, and a better one than every other candidate.
pub open spec fn is_best(ranks: Seq<Option<u8>>, i: int) -> bool {
    &&& 0 <= i < ranks.len()
    &&& ranks[i] is Some
    &&& forall|j: int|
        0 <= j < ranks.len() && j != i && (#[trigger] ranks[j]) is Some ==> ranks[j]->0
            > ranks[i]->0
}

/// The candidate with the best rank, where no other has that rank.
pub open spec fn best_index(ranks: Seq<Option<u8>>) -> Option<int> {
    if exists|i: int| is_best(ranks, i) {
        Some(choose|i: int| is_best(ranks, i))
    } else {
        None
    }
}

/// At most one candidate is best.
pub proof fn lemma_best_is_unique(ranks: Seq<Option<u8>>, i: int)
    requires
        is_best(ranks, i),
    ensures
        best_index(ranks) == Some(i),
{
    let k = choose|k: int| is_best(ranks, k);
    if k != i {
        assert(ranks[k] is Some && ranks[i] is Some);
    }
}

/// `best_index`, computed.
pub fn select_unique_best_rank(ranks: &[Option<u8>]) -> (out: Option<usize>)
    ensures
        match out {
            Some(i) => best_index(ranks@) == Some(i as int),
            None => best_index(ranks@) is None,
        },
        out is Some ==> out->0 < ranks@.len(),
{
    let mut best: Option<(u8, usize, bool)> = None;
    let mut i: usize = 0;
    while i < ranks.len()
        invariant
            i <= ranks@.len(),
            match best {
                None => forall|j: int| 0 <= j < i ==> (#[trigger] ranks@[j]) is None,
                Some((rank, at, sole)) => {
                    &&& at < i
                    &&& ranks@[at as int] == Some(rank)
                    &&& forall|j: int|
                        0 <= j < i && (#[trigger] ranks@[j]) is Some ==> ranks@[j]->0 >= rank
                    &&& sole <==> forall|j: int|
                        0 <= j < i && j != at && (#[trigger] ranks@[j]) is Some ==> ranks@[j]->0
                            > rank
                },
            },
        decreases ranks@.len() - i,
    {
        if let Some(rank) = ranks[i] {
            match best {
                None => {
                    best = Some((rank, i, true));
                },
                Some((current, at, _)) => {
                    if rank < current {
                        best = Some((rank, i, true));
                    } else if rank == current {
                        assert(ranks@[i as int] is Some && i != at);
                        best = Some((current, at, false));
                    }
                },
            }
        }
        i += 1;
    }
    match best {
        None => None,
        Some((rank, at, sole)) => {
            if sole {
                proof {
                    lemma_best_is_unique(ranks@, at as int);
                }
                Some(at)
            } else {
                proof {
                    assert forall|k: int| !is_best(ranks@, k) by {
                        if is_best(ranks@, k) {
                            assert(ranks@[at as int] is Some);
                            if k == at {
                                assert(sole);
                            } else {
                                assert(ranks@[k] is Some);
                            }
                        }
                    }
                }
                None
            }
        },
    }
}

// ---------------------------------------------------------------------------
// The foreground window
// ---------------------------------------------------------------------------

/// What a window says of itself.
#[derive(Debug, Clone, Copy, PartialEq, Eq, Structural)]
pub struct AxForegroundState {
    pub focused: Option<bool>,
    pub main: Option<bool>,
}

pub open spec fn foreground_known(state: AxForegroundState) -> bool {
    state.focused is Some && state.main is Some
}

pub open spec fn foreground_claimed(state: AxForegroundState) -> bool {
    state.focused == Some(true) || state.main == Some(true)
}

/// The window that alone is focused or main, where the application is in front
/// and every window says both.
pub open spec fn foreground_index(
    app_frontmost: bool,
    states: Seq<AxForegroundState>,
) -> Option<usize> {
    if app_frontmost && states.len() > 0 && (forall|i: int|
        0 <= i < states.len() ==> foreground_known(#[trigger] states[i])) {
        sole_true(states.map_values(|s: AxForegroundState| foreground_claimed(s)))
    } else {
        None
    }
}

/// `foreground_index`, computed.
pub fn select_unique_foreground_index(
    app_frontmost: bool,
    states: &[AxForegroundState],
) -> (out: Option<usize>)
    ensures
        out == foreground_index(app_frontmost, states@),
{
    if !app_frontmost || states.len() == 0 {
        return None;
    }
    let mut claims: Vec<bool> = Vec::new();
    let mut i: usize = 0;
    while i < states.len()
        invariant
            i <= states@.len(),
            claims@.len() == i,
            forall|j: int| 0 <= j < i ==> foreground_known(#[trigger] states@[j]),
            forall|j: int| 0 <= j < i ==> claims@[j] == foreground_claimed(states@[j]),
        decreases states@.len() - i,
    {
        let state: AxForegroundState = states[i];
        match (state.focused, state.main) {
            (Some(focused), Some(main)) => {
                claims.push(focused || main);
            },
            _ => {
                assert(!foreground_known(states@[i as int]));
                return None;
            },
        }
        i += 1;
    }
    assert(claims@ =~= states@.map_values(|s: AxForegroundState| foreground_claimed(s)));
    unique_frontmost_index(&claims)
}

/// The window in front is the one that alone claims the focus or to be the main one, of
/// windows that all say whether they do, of an application that is in front.
pub proof fn law_the_window_in_front_alone_claims_it(
    app_frontmost: bool,
    states: Seq<AxForegroundState>,
    index: usize,
)
    requires
        states.len() <= usize::MAX,
    ensures
        foreground_index(app_frontmost, states) == Some(index) <==> {
            &&& app_frontmost
            &&& index < states.len()
            &&& forall|i: int|
                0 <= i < states.len() ==> (#[trigger] states[i]).focused is Some && states[i].main
                    is Some
            &&& forall|i: int|
                0 <= i < states.len() ==> (((#[trigger] states[i]).focused == Some(true)
                    || states[i].main == Some(true)) <==> i == index)
        },
{
    let claims = states.map_values(|s: AxForegroundState| foreground_claimed(s));
    law_unique_true(claims, index);
    assert(forall|i: int|
        0 <= i < states.len() ==> claims[i] == foreground_claimed(#[trigger] states[i]));
    let known = forall|i: int| 0 <= i < states.len() ==> foreground_known(#[trigger] states[i]);
    if app_frontmost && index < states.len() && (forall|i: int|
        0 <= i < states.len() ==> (#[trigger] states[i]).focused is Some && states[i].main
            is Some) {
        assert(known) by {
            assert forall|i: int| 0 <= i < states.len() implies foreground_known(
                #[trigger] states[i],
            ) by {
                assert(states[i].focused is Some);
            }
        }
    }
    if foreground_index(app_frontmost, states) == Some(index) {
        assert(known);
        assert forall|i: int| 0 <= i < states.len() implies (#[trigger] states[i]).focused is Some
            && states[i].main is Some by {
            assert(foreground_known(states[i]));
        }
        assert forall|i: int| 0 <= i < states.len() implies (((#[trigger] states[i]).focused
            == Some(true) || states[i].main == Some(true)) <==> i == index) by {
            assert(claims[i] == foreground_claimed(states[i]));
        }
    }
    if foreground_index(app_frontmost, states) != Some(index) && app_frontmost && index
        < states.len() && known && claims[index as int] {
        let j = choose|j: int| 0 <= j < claims.len() && j != index && claims[j];
        assert(foreground_claimed(states[j]));
    }
}

/// The best candidate is the one whose rank is below that of every other.
pub proof fn law_the_best_rank_is_the_lowest(ranks: Seq<Option<u8>>, i: int)
    ensures
        best_index(ranks) == Some(i) <==> {
            &&& 0 <= i < ranks.len()
            &&& ranks[i] matches Some(best) && forall|j: int|
                0 <= j < ranks.len() && j != i ==> ((#[trigger] ranks[j]) matches Some(other)
                    ==> best < other)
        },
{
    if 0 <= i < ranks.len() && (ranks[i] matches Some(best) && forall|j: int|
        0 <= j < ranks.len() && j != i ==> ((#[trigger] ranks[j]) matches Some(other) ==> best
            < other)) {
        assert(is_best(ranks, i));
        lemma_best_is_unique(ranks, i);
    }
}

/// A prompt means an account only where that is enabled and has the name that the prompt
/// shows, but for case and for white space round it.
pub proof fn law_an_account_is_meant_by_its_name(account: AccountView, email: Seq<char>)
    ensures
        account_meant(account, email) <==> account.enabled && trimmed(account.username).len()
            == trimmed(email).len() && (forall|i: int|
            0 <= i < trimmed(email).len() ==> same_letter(
                #[trigger] trimmed(account.username)[i],
                trimmed(email)[i],
            )),
{
    law_same_but_for_case(trimmed(account.username), trimmed(email));
}

} // verus!
