//! Small checks shared by the request handlers.

use vstd::prelude::*;
use vstd::string::StrSliceExecFns;

use crate::error::ContractError;
use crate::networks::Powerup;
use crate::state::Permit;

verus! {

/// The texts of a list of strings.
pub open spec fn texts(list: Seq<String>) -> Seq<Seq<char>> {
    list.map_values(|s: String| s@)
}

/// Whether no powerup occurs twice in `list`.
pub fn is_powerup_list_unique(list: &Vec<Powerup>) -> (unique: bool)
    ensures
        unique == list@.no_duplicates(),
{
    let mut i: usize = 0;
    while i < list.len()
        invariant
            i <= list.len(),
            forall|a: int, b: int| 0 <= a < b < list.len() && b < i ==> list[a] != list[b],
        decreases list.len() - i,
    {
        let mut j: usize = 0;
        while j < i
            invariant
                j <= i,
                i < list.len(),
                forall|a: int| 0 <= a < j ==> list[a] != list[i as int],
            decreases i - j,
        {
            if list[j] == list[i] {
                return false;
            }
            j = j + 1;
        }
        i = i + 1;
    }
    proof {
        assert forall|a: int, b: int| 0 <= a < list.len() && 0 <= b < list.len() && a != b implies list[a]
            != list[b] by {
            if a < b {
                assert(list[a] != list[b]);
            } else {
                assert(list[b] != list[a]);
            }
        }
    }
    true
}

/// Whether no chain id occurs twice in `list`.
pub fn is_chain_id_list_unique(list: &Vec<String>) -> (unique: bool)
    ensures
        unique == texts(list@).no_duplicates(),
{
    let mut i: usize = 0;
    while i < list.len()
        invariant
            i <= list.len(),
            forall|a: int, b: int| 0 <= a < b < list.len() && b < i ==> list[a]@ != list[b]@,
        decreases list.len() - i,
    {
        let mut j: usize = 0;
        while j < i
            invariant
                j <= i,
                i < list.len(),
                forall|a: int| 0 <= a < j ==> list[a]@ != list[i as int]@,
            decreases i - j,
        {
            if list[j] == list[i] {
                proof {
                    let t = texts(list@);
                    assert(t[j as int] == t[i as int]);
                }
                return false;
            }
            j = j + 1;
        }
        i = i + 1;
    }
    proof {
        let t = texts(list@);
        assert forall|a: int, b: int| 0 <= a < t.len() && 0 <= b < t.len() && a != b implies t[a]
            != t[b] by {
            if a < b {
                assert(list[a]@ != list[b]@);
            } else {
                assert(list[b]@ != list[a]@);
            }
        }
    }
    true
}

/// A denomination names a bridged asset when it starts with `ibc/`.
pub open spec fn is_bridged(denom: Seq<char>) -> bool {
    &&& denom.len() >= 4
    &&& denom[0] == 'i'
    &&& denom[1] == 'b'
    &&& denom[2] == 'c'
    &&& denom[3] == '/'
}

/// Whether `denom` names a bridged asset.
pub fn is_bridged_denom(denom: &String) -> (bridged: bool)
    ensures
        bridged == is_bridged(denom@),
{
    let text = denom.as_str();
    text.unicode_len() >= 4 && text.get_char(0) == 'i' && text.get_char(1) == 'b' && text.get_char(
        2,
    ) == 'c' && text.get_char(3) == '/'
}

/// The account a checked permit speaks for.
pub open spec fn permit_account(permit: Permit) -> Result<Seq<char>, ContractError> {
    match permit {
        Permit::Granted(account) => Ok(account@),
        Permit::Denied => Err(ContractError::Unauthorized),
    }
}

/// The account that `permit` speaks for, or `Unauthorized` if it was denied.
pub fn address_from_permit(permit: &Permit) -> (result: Result<String, ContractError>)
    ensures
        match result {
            Ok(account) => permit_account(*permit) == Ok::<Seq<char>, ContractError>(account@),
            Err(e) => permit_account(*permit) == Err::<Seq<char>, ContractError>(e),
        },
{
    match permit {
        Permit::Granted(account) => Ok(account.clone()),
        Permit::Denied => Err(ContractError::Unauthorized),
    }
}

} // verus!
