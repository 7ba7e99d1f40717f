//! Conditional requests: the `If-Match`, `If-None-Match` and `If` headers,
//! held against the resources that a request touches.

use crate::status;
use crate::text::same_text;
use crate::token::Collection;
use crate::{DavError, DavMethod};
use vstd::prelude::*;

verus! {

/// What is known of a resource that a request touches.
#[derive(Debug)]
pub struct ResourceState {
    pub account_id: u32,
    pub collection: Collection,
    /// The document of the resource; `None` where it does not exist.
    pub document_id: Option<u32>,
    pub etag: Option<String>,
    /// The path of the resource below the root of its account.
    pub path: String,
    /// The token of the lock that is held on the resource, if one is.
    pub lock_token: Option<u64>,
}

/// An `If-Match` or `If-None-Match` header.
#[derive(Debug)]
pub enum EtagCondition {
    /// The header was not sent.
    Absent,
    /// `*`: any entity.
    Any,
    /// The entity tags that the header lists.
    Tags(Vec<String>),
}

/// A state token of an `If` header.
#[derive(Debug)]
pub enum StateToken {
    /// A lock token.
    Lock(u64),
    /// An entity tag.
    ETag(String),
}

/// One condition of a list of an `If` header.
#[derive(Debug)]
pub struct IfCondition {
    /// The condition holds where the token does not.
    pub negate: bool,
    pub token: StateToken,
}

/// One list of an `If` header.
#[derive(Debug)]
pub struct IfList {
    /// The path of the resource that the list is tagged with; `None` where
    /// it is about the resource of the request.
    pub resource: Option<String>,
    pub conditions: Vec<IfCondition>,
}

/// The conditional headers of a request.
#[derive(Debug)]
pub struct Conditions {
    pub if_match: EtagCondition,
    pub if_none_match: EtagCondition,
    pub if_lists: Vec<IfList>,
}

/// One of the first `n` tags is `etag`.
pub open spec fn spec_lists_tag(tags: Seq<String>, etag: Seq<char>, n: int) -> bool
    decreases n,
{
    if n <= 0 {
        false
    } else {
        spec_lists_tag(tags, etag, n - 1) || tags[n - 1]@ == etag
    }
}

/// The entity of `state` is one that `condition` names: any entity that
/// exists for `*`, else one whose tag is listed. A header that was not sent
/// names none.
pub open spec fn spec_names(condition: &EtagCondition, state: &ResourceState) -> bool {
    match condition {
        EtagCondition::Absent => false,
        EtagCondition::Any => state.document_id.is_some(),
        EtagCondition::Tags(tags) => match state.etag {
            Some(etag) => spec_lists_tag(tags@, etag@, tags@.len() as int),
            None => false,
        },
    }
}

/// The position of the first state at or after `from` whose path is
/// `path`.
pub open spec fn spec_state_index(states: Seq<ResourceState>, path: Seq<char>, from: int) -> Option<
    int,
>
    decreases states.len() - from,
{
    if from < 0 || from >= states.len() {
        None
    } else if states[from].path@ == path {
        Some(from)
    } else {
        spec_state_index(states, path, from + 1)
    }
}

/// The state that a list of an `If` header is about: the one with the path
/// that tags the list, the first where the list is not tagged.
pub open spec fn spec_list_state(states: Seq<ResourceState>, list: &IfList) -> Option<int> {
    match list.resource {
        Some(path) => spec_state_index(states, path@, 0),
        None => if states.len() > 0 {
            Some(0int)
        } else {
            None
        },
    }
}

/// The token is that of the lock on the resource, or the entity tag of the
/// resource.
pub open spec fn spec_token_holds(token: &StateToken, state: &ResourceState) -> bool {
    match token {
        StateToken::Lock(id) => state.lock_token == Some(*id),
        StateToken::ETag(etag) => match state.etag {
            Some(have) => have@ == etag@,
            None => false,
        },
    }
}

/// Each of the first `n` conditions holds of `state`.
pub open spec fn spec_conditions_hold(conditions: Seq<IfCondition>, state: &ResourceState, n: int) -> bool
    decreases n,
{
    if n <= 0 {
        true
    } else {
        spec_conditions_hold(conditions, state, n - 1) && (spec_token_holds(
            &conditions[n - 1].token,
            state,
        ) != conditions[n - 1].negate)
    }
}

/// The list is about a resource that the request touches, and all its
/// conditions hold of it.
pub open spec fn spec_list_holds(states: Seq<ResourceState>, list: &IfList) -> bool {
    match spec_list_state(states, list) {
        Some(i) => spec_conditions_hold(list.conditions@, &states[i], list.conditions@.len() as int),
        None => false,
    }
}

/// One of the first `n` lists holds.
pub open spec fn spec_any_list(states: Seq<ResourceState>, lists: Seq<IfList>, n: int) -> bool
    decreases n,
{
    if n <= 0 {
        false
    } else {
        spec_any_list(states, lists, n - 1) || spec_list_holds(states, &lists[n - 1])
    }
}

/// One of the first `n` conditions names the lock token `token`, not
/// negated.
pub open spec fn spec_submits(conditions: Seq<IfCondition>, token: u64, n: int) -> bool
    decreases n,
{
    if n <= 0 {
        false
    } else {
        spec_submits(conditions, token, n - 1) || (!conditions[n - 1].negate
            && conditions[n - 1].token == StateToken::Lock(token))
    }
}

/// One of the first `n` lists names the lock token `token`.
pub open spec fn spec_submitted(lists: Seq<IfList>, token: u64, n: int) -> bool
    decreases n,
{
    if n <= 0 {
        false
    } else {
        spec_submitted(lists, token, n - 1) || spec_submits(
            lists[n - 1].conditions@,
            token,
            lists[n - 1].conditions@.len() as int,
        )
    }
}

/// The method changes what it is sent to, so the locks on what it touches
/// count.
pub open spec fn spec_writes(method: DavMethod) -> bool {
    !(method == DavMethod::GET || method == DavMethod::HEAD || method == DavMethod::OPTIONS
        || method == DavMethod::PROPFIND || method == DavMethod::REPORT)
}

/// The tokens of the locks on the first `n` states, in the order of the
/// states.
pub open spec fn spec_locks(states: Seq<ResourceState>, n: int) -> Seq<u64>
    decreases n,
{
    if n <= 0 {
        Seq::empty()
    } else {
        match states[n - 1].lock_token {
            Some(token) => spec_locks(states, n - 1).push(token),
            None => spec_locks(states, n - 1),
        }
    }
}

/// One of the first `n` states is locked with a token that the request
/// does not name.
pub open spec fn spec_any_locked(states: Seq<ResourceState>, lists: Seq<IfList>, n: int) -> bool
    decreases n,
{
    if n <= 0 {
        false
    } else {
        spec_any_locked(states, lists, n - 1) || match states[n - 1].lock_token {
            Some(token) => !spec_submitted(lists, token, lists.len() as int),
            None => false,
        }
    }
}

/// What the conditional headers say of a request on `states`, the first of
/// which is the resource of the request.
///
/// `If-Match` has to name the entity of the resource, and `If-None-Match`
/// must not; where the first fails the answer is 412, where the second
/// fails 304 for a GET or HEAD with listed tags and 412 otherwise. Of the
/// lists of an `If` header one has to hold, else the answer is 412. A
/// method that writes has to name the token of every lock on what it
/// touches, else the answer is 423. Where all is well the request goes on
/// with the tokens of those locks.
pub open spec fn spec_validate_headers(
    conditions: &Conditions,
    states: Seq<ResourceState>,
    method: DavMethod,
) -> Result<Seq<u64>, DavError> {
    if states.len() == 0 {
        Ok(Seq::empty())
    } else if !(conditions.if_match is Absent) && !spec_names(&conditions.if_match, &states[0]) {
        Err(DavError::Code(status::PRECONDITION_FAILED))
    } else if spec_names(&conditions.if_none_match, &states[0]) {
        if conditions.if_none_match is Tags && (method == DavMethod::GET || method
            == DavMethod::HEAD) {
            Err(DavError::Code(status::NOT_MODIFIED))
        } else {
            Err(DavError::Code(status::PRECONDITION_FAILED))
        }
    } else if conditions.if_lists@.len() > 0 && !spec_any_list(
        states,
        conditions.if_lists@,
        conditions.if_lists@.len() as int,
    ) {
        Err(DavError::Code(status::PRECONDITION_FAILED))
    } else if spec_writes(method) && spec_any_locked(
        states,
        conditions.if_lists@,
        states.len() as int,
    ) {
        Err(DavError::Code(status::LOCKED))
    } else if spec_writes(method) {
        Ok(spec_locks(states, states.len() as int))
    } else {
        Ok(Seq::empty())
    }
}

fn names(condition: &EtagCondition, state: &ResourceState) -> (r: bool)
    ensures
        r == spec_names(condition, state),
{
    match condition {
        EtagCondition::Absent => false,
        EtagCondition::Any => state.document_id.is_some(),
        EtagCondition::Tags(tags) => match &state.etag {
            Some(etag) => {
                let mut found = false;
                let mut i: usize = 0;
                while i < tags.len()
                    invariant
                        i <= tags.len(),
                        found == spec_lists_tag(tags@, etag@, i as int),
                    decreases tags.len() - i,
                {
                    if same_text(tags[i].as_str(), etag.as_str()) {
                        found = true;
                    }
                    i += 1;
                }
                found
            },
            None => false,
        },
    }
}

fn state_of<'a>(states: &'a Vec<ResourceState>, list: &IfList) -> (r: Option<&'a ResourceState>)
    ensures
        r.is_some() == spec_list_state(states@, list).is_some(),
        r.is_some() ==> *r.unwrap() == states@[spec_list_state(states@, list).unwrap()],
{
    match &list.resource {
        Some(path) => {
            let mut i: usize = 0;
            while i < states.len()
                invariant
                    i <= states.len(),
                    list.resource == Some(*path),
                    spec_state_index(states@, path@, 0) == spec_state_index(
                        states@,
                        path@,
                        i as int,
                    ),
                decreases states.len() - i,
            {
                if same_text(states[i].path.as_str(), path.as_str()) {
                    return Some(&states[i]);
                }
                i += 1;
            }
            None
        },
        None => if states.len() > 0 {
            Some(&states[0])
        } else {
            None
        },
    }
}

fn token_holds(token: &StateToken, state: &ResourceState) -> (r: bool)
    ensures
        r == spec_token_holds(token, state),
{
    match token {
        StateToken::Lock(id) => match state.lock_token {
            Some(have) => have == *id,
            None => false,
        },
        StateToken::ETag(etag) => match &state.etag {
            Some(have) => same_text(have.as_str(), etag.as_str()),
            None => false,
        },
    }
}

fn list_holds(states: &Vec<ResourceState>, list: &IfList) -> (r: bool)
    ensures
        r == spec_list_holds(states@, list),
{
    let state = match state_of(states, list) {
        Some(state) => state,
        None => {
            return false;
        },
    };
    let mut all = true;
    let mut i: usize = 0;
    while i < list.conditions.len()
        invariant
            i <= list.conditions.len(),
            all == spec_conditions_hold(list.conditions@, state, i as int),
        decreases list.conditions.len() - i,
    {
        if token_holds(&list.conditions[i].token, state) == list.conditions[i].negate {
            all = false;
        }
        i += 1;
    }
    all
}

fn submitted(lists: &Vec<IfList>, token: u64) -> (r: bool)
    ensures
        r == spec_submitted(lists@, token, lists@.len() as int),
{
    let mut found = false;
    let mut i: usize = 0;
    while i < lists.len()
        invariant
            i <= lists.len(),
            found == spec_submitted(lists@, token, i as int),
        decreases lists.len() - i,
    {
        let conditions = &lists[i].conditions;
        let mut here = false;
        let mut k: usize = 0;
        while k < conditions.len()
            invariant
                k <= conditions.len(),
                here == spec_submits(conditions@, token, k as int),
            decreases conditions.len() - k,
        {
            if !conditions[k].negate {
                if let StateToken::Lock(id) = &conditions[k].token {
                    if *id == token {
                        here = true;
                    }
                }
            }
            k += 1;
        }
        if here {
            found = true;
        }
        i += 1;
    }
    found
}

/// Whether a request with this method changes what it is sent to.
pub fn writes(method: DavMethod) -> (r: bool)
    ensures
        r == spec_writes(method),
{
    !matches!(
        method,
        DavMethod::GET | DavMethod::HEAD | DavMethod::OPTIONS | DavMethod::PROPFIND
            | DavMethod::REPORT
    )
}

/// Holds the conditional headers of a request against the resources that
/// it touches, the first of which is the resource of the request. Gives
/// the tokens of the locks that the request goes on with, or the status
/// that it is refused with.
pub fn validate_headers(conditions: &Conditions, states: &Vec<ResourceState>, method: DavMethod) -> (r:
    Result<Vec<u64>, DavError>)
    ensures
        match spec_validate_headers(conditions, states@, method) {
            Ok(locks) => r.is_ok() && r.unwrap()@ == locks,
            Err(e) => r == Err::<Vec<u64>, DavError>(e),
        },
{
    if states.len() == 0 {
        return Ok(Vec::new());
    }
    let target = &states[0];
    if !matches!(conditions.if_match, EtagCondition::Absent) && !names(&conditions.if_match, target) {
        return Err(DavError::Code(status::PRECONDITION_FAILED));
    }
    if names(&conditions.if_none_match, target) {
        let reads = matches!(method, DavMethod::GET | DavMethod::HEAD);
        if matches!(conditions.if_none_match, EtagCondition::Tags(_)) && reads {
            return Err(DavError::Code(status::NOT_MODIFIED));
        }
        return Err(DavError::Code(status::PRECONDITION_FAILED));
    }
    if conditions.if_lists.len() > 0 {
        let mut any = false;
        let mut i: usize = 0;
        while i < conditions.if_lists.len()
            invariant
                i <= conditions.if_lists.len(),
                any == spec_any_list(states@, conditions.if_lists@, i as int),
            decreases conditions.if_lists.len() - i,
        {
            if list_holds(states, &conditions.if_lists[i]) {
                any = true;
            }
            i += 1;
        }
        if !any {
            return Err(DavError::Code(status::PRECONDITION_FAILED));
        }
    }
    if !writes(method) {
        return Ok(Vec::new());
    }
    let mut locks: Vec<u64> = Vec::new();
    let mut locked = false;
    let mut i: usize = 0;
    while i < states.len()
        invariant
            i <= states.len(),
            locks@ == spec_locks(states@, i as int),
            locked == spec_any_locked(states@, conditions.if_lists@, i as int),
        decreases states.len() - i,
    {
        if let Some(token) = states[i].lock_token {
            if !submitted(&conditions.if_lists, token) {
                locked = true;
            }
            locks.push(token);
        }
        i += 1;
    }
    if locked {
        return Err(DavError::Code(status::LOCKED));
    }
    Ok(locks)
}

} // verus!
