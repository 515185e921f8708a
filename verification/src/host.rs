//! The host: its storage, its identity validator and its response type.
//!
//! Nothing in this file is proved. Each item says what the rest of the
//! library takes for granted about the host's own code.

use crate::error::ContractError;
use crate::keys::key_of;
use crate::state::{Config, UserState};
use crate::table::{is_entry_scan, is_key_scan, slot, UserTable};
use cosmwasm_std::{Addr, Api, Empty, Order, Response, StdError, Storage};
use vstd::prelude::*;

verus! {

/// The host's own error type. Its values are carried, never inspected.
#[verifier::external_type_specification]
#[verifier::external_body]
pub struct ExStdError(StdError);

/// The host's response to a call that changes state.
#[verifier::external_type_specification]
#[verifier::external_body]
#[verifier::reject_recursive_types(T)]
pub struct ExResponse<T>(Response<T>);

/// The host's marker for "no custom message".
#[verifier::external_type_specification]
#[verifier::external_body]
pub struct ExEmpty(Empty);

/// What the host lends to one call: its key-value storage and its identity
/// validator.
///
/// Both are trait objects of the host, so the struct is opaque to the
/// verifier: [`stored_config`] and [`stored_users`] say what the storage
/// holds, [`validator_accepts`] what the validator does. A caller fills in
/// the two fields; in the library only the functions of this file read
/// them.
#[verifier::external_body]
pub struct Deps<'a> {
    pub storage: &'a mut dyn Storage,
    pub api: &'a dyn Api,
}

/// What the configuration slot holds: `None` when nothing was ever saved,
/// `Some(None)` when what is there does not decode, else the owner.
pub uninterp spec fn stored_config(deps: Deps) -> Option<Option<Seq<char>>>;

/// What is stored in the namespace of the user records, by the bytes of
/// the key behind the namespace.
pub uninterp spec fn stored_users(deps: Deps) -> UserTable;

/// Whether the host's validator accepts an identity. The validator is part
/// of what the host lends and keeps no state of its own, so the answer is
/// the same whenever the same host is asked about the same text.
pub uninterp spec fn validator_accepts(deps: Deps, human: Seq<char>) -> bool;

/// The key-value attributes of a response, in the order they were added.
pub uninterp spec fn response_attributes(response: Response) -> Seq<(Seq<char>, Seq<char>)>;

/// Whether a response carries anything but attributes: messages, events or
/// a binary payload.
pub uninterp spec fn response_has_payload(response: Response) -> bool;

/// Two stores hold the same configuration and the same records.
pub open spec fn same_contents(a: Deps, b: Deps) -> bool {
    stored_config(a) == stored_config(b) && stored_users(a) == stored_users(b)
}

/// The validator accepts the same identities in both.
pub open spec fn same_validator(a: Deps, b: Deps) -> bool {
    forall|human: Seq<char>| #[trigger] validator_accepts(a, human) == validator_accepts(b, human)
}

/// A key that the host takes for an attribute: one that does not start
/// with an underscore. The host keeps such keys for itself.
pub open spec fn free_key(key: Seq<char>) -> bool {
    key.len() == 0 || key[0] != '_'
}

/// `cw_storage_plus::Item::load` on the configuration slot. The contract
/// claims: the owner comes back when the slot decodes; the host's
/// `NotFound` error comes back, as [`ContractError::NotFound`], exactly when
/// the slot is empty; any other error means the slot does not decode.
#[verifier::external_body]
pub(crate) fn load_config(deps: &Deps) -> (res: Result<Config, ContractError>)
    ensures
        match stored_config(*deps) {
            None => res matches Err(ContractError::NotFound { .. }),
            Some(None) => res matches Err(ContractError::Std(_)),
            Some(Some(owner)) => res matches Ok(config) && config.owner@ == owner,
        },
{
    match cw_storage_plus::Item::<String>::new("config").load(&*deps.storage) {
        Ok(owner) => Ok(Config { owner }),
        Err(StdError::NotFound { kind, .. }) => Err(ContractError::NotFound { kind }),
        Err(e) => Err(ContractError::Std(e)),
    }
}

/// `cw_storage_plus::Item::save` on the configuration slot. The contract
/// claims: the call succeeds, since it fails only where the value cannot be
/// encoded and the host's encoder has no failing path for text; the slot
/// then holds the owner. The records and the validator are as before.
#[verifier::external_body]
pub(crate) fn save_config(deps: &mut Deps, config: &Config) -> (res: Result<(), StdError>)
    ensures
        res is Ok,
        stored_config(*final(deps)) == Some(Some(config.owner@)),
        stored_users(*final(deps)) == stored_users(*old(deps)),
        same_validator(*final(deps), *old(deps)),
{
    cw_storage_plus::Item::<String>::new("config").save(&mut *deps.storage, &config.owner)
}

/// `cw_storage_plus::Map::may_load` on the user records, keyed by the
/// identity's text. The contract claims: `Ok(None)` exactly when nothing is
/// stored under the key, the record when it decodes, an error when it does
/// not.
#[verifier::external_body]
pub(crate) fn may_load_user(deps: &Deps, id: &str) -> (res: Result<Option<UserState>, StdError>)
    ensures
        match slot(stored_users(*deps), key_of(id@)) {
            None => res matches Ok(None),
            Some(None) => res is Err,
            Some(Some(state)) => res matches Ok(Some(found)) && found == state,
        },
{
    cw_storage_plus::Map::<&Addr, (u64, u64)>::new("radioactivity")
        .may_load(&*deps.storage, &Addr::unchecked(id))
        .map(|found| {
            found.map(|(last_interaction, radioactivity)| {
                UserState { last_interaction, radioactivity }
            })
        })
}

/// `cw_storage_plus::Map::load` on the user records. The contract claims
/// the same as for [`may_load_user`], but that an empty slot gives the
/// host's `NotFound` error, as [`ContractError::NotFound`].
#[verifier::external_body]
pub(crate) fn load_user(deps: &Deps, id: &str) -> (res: Result<UserState, ContractError>)
    ensures
        match slot(stored_users(*deps), key_of(id@)) {
            None => res matches Err(ContractError::NotFound { .. }),
            Some(None) => res matches Err(ContractError::Std(_)),
            Some(Some(state)) => res matches Ok(found) && found == state,
        },
{
    match cw_storage_plus::Map::<&Addr, (u64, u64)>::new("radioactivity")
        .load(&*deps.storage, &Addr::unchecked(id))
    {
        Ok((last_interaction, radioactivity)) => Ok(UserState { last_interaction, radioactivity }),
        Err(StdError::NotFound { kind, .. }) => Err(ContractError::NotFound { kind }),
        Err(e) => Err(ContractError::Std(e)),
    }
}

/// `cw_storage_plus::Map::save` on the user records. The contract claims:
/// the call succeeds, since it fails only where the value cannot be encoded
/// and the host's encoder has no failing path for a pair of integers; the
/// key then holds the record and every other key is as before. The
/// configuration and the validator are as before.
#[verifier::external_body]
pub(crate) fn save_user(deps: &mut Deps, id: &str, state: &UserState) -> (res: Result<
    (),
    StdError,
>)
    ensures
        res is Ok,
        stored_users(*final(deps)) == stored_users(*old(deps)).insert(key_of(id@), Some(*state)),
        stored_config(*final(deps)) == stored_config(*old(deps)),
        same_validator(*final(deps), *old(deps)),
{
    cw_storage_plus::Map::<&Addr, (u64, u64)>::new("radioactivity").save(
        &mut *deps.storage,
        &Addr::unchecked(id),
        &(state.last_interaction, state.radioactivity),
    )
}

/// `cw_storage_plus::Map::keys` over all user records, ascending. The
/// contract claims: one item per stored entry, in ascending order of the
/// keys; the identity where the entry can be read back, an error where its
/// key is not text or its value does not decode.
#[verifier::external_body]
pub(crate) fn scan_user_keys(deps: &Deps) -> (res: Vec<Result<String, StdError>>)
    ensures
        is_key_scan(stored_users(*deps), res@),
{
    cw_storage_plus::Map::<&Addr, (u64, u64)>::new("radioactivity")
        .keys(&*deps.storage, None, None, Order::Ascending)
        .map(|item| item.map(Addr::into_string))
        .collect()
}

/// `cw_storage_plus::Map::range` over all user records, ascending. The
/// contract claims: one item per stored entry, in ascending order of the
/// keys; the identity and the record where the entry can be read back, an
/// error where its key is not text or its value does not decode.
#[verifier::external_body]
pub(crate) fn scan_users(deps: &Deps) -> (res: Vec<Result<(String, UserState), StdError>>)
    ensures
        is_entry_scan(stored_users(*deps), res@),
{
    cw_storage_plus::Map::<&Addr, (u64, u64)>::new("radioactivity")
        .range(&*deps.storage, None, None, Order::Ascending)
        .map(|item| item.map(|(id, (last_interaction, radioactivity))| {
            (id.into_string(), UserState { last_interaction, radioactivity })
        }))
        .collect()
}

/// `cw2::set_contract_version`. The contract claims: the call succeeds,
/// since it fails only where the name and the version cannot be encoded and
/// the host's encoder has no failing path for a struct of two texts. The
/// configuration, the records and the validator are as before: the version
/// is kept under a key of its own.
#[verifier::external_body]
pub(crate) fn set_contract_version(deps: &mut Deps, name: &str, version: &str) -> (res: Result<
    (),
    StdError,
>)
    ensures
        res is Ok,
        same_contents(*final(deps), *old(deps)),
        same_validator(*final(deps), *old(deps)),
{
    cw2::set_contract_version(&mut *deps.storage, name, version)
}

/// `cosmwasm_std::Api::addr_validate`. The contract claims: an identity
/// that is accepted comes back with the text that was handed in. Which
/// ones are accepted is the host's matter.
#[verifier::external_body]
pub(crate) fn validate_address(deps: &Deps, human: &str) -> (res: Result<String, StdError>)
    ensures
        res is Ok <==> validator_accepts(*deps, human@),
        res matches Ok(id) ==> id@ == human@,
{
    deps.api.addr_validate(human).map(Addr::into_string)
}

/// `cosmwasm_std::Response::new`. The contract claims: the new response has
/// no attributes and carries nothing else.
#[verifier::external_body]
pub(crate) fn new_response() -> (res: Response)
    ensures
        response_attributes(res) == Seq::<(Seq<char>, Seq<char>)>::empty(),
        !response_has_payload(res),
{
    Response::new()
}

/// `cosmwasm_std::Response::add_attribute`. The contract claims: the
/// attribute is added after those that were there, and nothing else
/// changes. A key that starts with an underscore is left out: the host
/// keeps such keys for itself and, in a build with debug assertions,
/// panics on one.
#[verifier::external_body]
pub(crate) fn add_attribute(response: Response, key: &str, value: &str) -> (res: Response)
    requires
        free_key(key@),
    ensures
        response_attributes(res) == response_attributes(response).push((key@, value@)),
        response_has_payload(res) == response_has_payload(response),
{
    response.add_attribute(key, value)
}

} // verus!
