//! The validity predicate for ports and capabilities.
//!
//! A transaction is judged key by key over two snapshots of the store: the
//! one before the transaction and the one after it. A port may only come
//! into being together with a capability that owns it, a capability only
//! together with the port that it was issued for, and the counter of
//! capabilities only grows.

use crate::capability::{index_of, Capability};
use crate::codec::{
    decode_error_text, decode_text, decode_u64, decoded_text, decoded_u64, DecodeError,
};
use crate::decimal::{
    decimal_text, lemma_decimal_round_trip, parse_error_text, parse_text, parse_u64, u64_to_text,
};
use crate::error::{concat, result_deep_view, result_view, Error, ErrorView};
use crate::identifier::{port_id_refusal, PortId};
use crate::key::{join_path, Key};
use crate::path::{
    capability_counter_key, capability_counter_path, capability_key, capability_path,
    is_capability_counter_key, port_key, port_path,
};
use crate::storage::{
    change_view, counter_outcome, counter_view, read_outcome, state_change, Snapshot,
    SnapshotView, StateChange,
};
use vstd::prelude::*;

verus! {

/// The index of the capability that a snapshot records as the owner of a
/// port. There is none where the port has no entry, or one that cannot be
/// read or decoded.
pub open spec fn module_by_port(post: SnapshotView, port_id: Seq<char>) -> Option<u64> {
    match read_outcome(post, port_key(port_id)) {
        Ok(Some(bytes)) => match decoded_u64(bytes) {
            Ok(index) => Some(index),
            Err(_) => None,
        },
        _ => None,
    }
}

/// The port that a snapshot records for a capability, or why there is none.
pub open spec fn port_by_capability(post: SnapshotView, index: u64) -> Result<
    Seq<char>,
    ErrorView,
> {
    match read_outcome(post, capability_key(index)) {
        Ok(Some(bytes)) => match decoded_text(bytes) {
            Ok(text) => match port_id_refusal(text) {
                None => Ok(text),
                Some(words) => Err(ErrorView::PortError(words)),
            },
            Err(e) => Err(
                ErrorView::PortError("Decoding the port ID failed: "@ + decode_error_text(e)),
            ),
        },
        Ok(None) => Err(ErrorView::PortError("The capability is not mapped to any port"@)),
        Err(reason) => Err(ErrorView::PortError("Reading the port failed "@ + reason)),
    }
}

/// Whether a snapshot records a port as the one that a capability was
/// issued for.
pub open spec fn authenticated(post: SnapshotView, index: u64, port_id: Seq<char>) -> bool {
    match read_outcome(post, capability_key(index)) {
        Ok(Some(bytes)) => decoded_text(bytes) == Ok::<Seq<char>, DecodeError>(port_id),
        _ => false,
    }
}

/// The capability that authenticates a port: the one recorded as its owner,
/// if the port is in turn the one recorded for that capability. Else the
/// words say what is missing.
pub open spec fn authenticated_capability(post: SnapshotView, port_id: Seq<char>) -> Result<
    u64,
    Seq<char>,
> {
    match module_by_port(post, port_id) {
        Some(index) => if authenticated(post, index, port_id) {
            Ok(index)
        } else {
            Err("the capability of the port is not mapped to it"@)
        },
        None => Err("no capability is mapped to the port"@),
    }
}

/// The judgment on a port: it must be newly created, and authenticated by
/// a capability.
pub open spec fn port_ruling(pre: SnapshotView, post: SnapshotView, port_id: Seq<char>) -> Result<
    bool,
    ErrorView,
> {
    match state_change(pre, post, port_key(port_id)) {
        Err(reason) => Err(ErrorView::StateChangeError(reason)),
        Ok(StateChange::Created) => match authenticated_capability(post, port_id) {
            Ok(_) => Ok(true),
            Err(words) => Err(
                ErrorView::PortError(
                    "The port is not authenticated: ID "@ + port_id + ", "@ + words,
                ),
            ),
        },
        Ok(_) => Err(
            ErrorView::PortError("The state change of the port is invalid: Port "@ + port_id),
        ),
    }
}

/// Whether a port is accepted: whether it is newly created and
/// authenticated by a capability.
pub open spec fn port_accepted(pre: SnapshotView, post: SnapshotView, port_id: Seq<char>) -> bool {
    &&& state_change(pre, post, port_key(port_id)) == Ok::<StateChange, Seq<char>>(
        StateChange::Created,
    )
    &&& authenticated_capability(post, port_id) is Ok
}

/// Whether a key of a port is accepted: whether it names a port, and that
/// port is accepted.
pub open spec fn port_key_accepted(
    pre: SnapshotView,
    post: SnapshotView,
    key: Seq<Seq<char>>,
) -> bool {
    &&& key.len() > 3
    &&& port_id_refusal(key[3]) is None
    &&& port_accepted(pre, post, key[3])
}

/// The port identifier that a key names: its fourth segment, if the
/// identifier rules accept it.
pub open spec fn port_id_of_key(key: Seq<Seq<char>>) -> Result<Seq<char>, ErrorView> {
    if key.len() > 3 {
        match port_id_refusal(key[3]) {
            None => Ok(key[3]),
            Some(words) => Err(ErrorView::KeyError(words)),
        }
    } else {
        Err(ErrorView::KeyError("The key doesn't have a port ID: Key "@ + join_path(key)))
    }
}

/// The judgment on a key of a port.
pub open spec fn port_key_ruling(
    pre: SnapshotView,
    post: SnapshotView,
    key: Seq<Seq<char>>,
) -> Result<bool, ErrorView> {
    match port_id_of_key(key) {
        Ok(port_id) => port_ruling(pre, post, port_id),
        Err(e) => Err(e),
    }
}

/// The value of the counter of capabilities in a snapshot.
pub open spec fn counter_value(snapshot: SnapshotView) -> Result<u64, ErrorView> {
    match counter_outcome(snapshot, capability_counter_key()) {
        Ok(value) => Ok(value),
        Err(words) => Err(ErrorView::CapabilityError(words)),
    }
}

/// The judgment on the counter of capabilities: it must have grown.
pub open spec fn counter_ruling(pre: SnapshotView, post: SnapshotView) -> Result<
    bool,
    ErrorView,
> {
    match counter_value(pre) {
        Err(e) => Err(e),
        Ok(before) => match counter_value(post) {
            Err(e) => Err(e),
            Ok(after) => if before < after {
                Ok(true)
            } else {
                Err(
                    ErrorView::CapabilityError(
                        "The capability index is invalid: Pre "@ + decimal_text(before as nat)
                            + ", Post "@ + decimal_text(after as nat),
                    ),
                )
            },
        },
    }
}

/// Whether the counter of capabilities can be read in both snapshots and
/// is larger after the transaction than before it.
pub open spec fn counter_grows(pre: SnapshotView, post: SnapshotView) -> bool {
    match (counter_value(pre), counter_value(post)) {
        (Ok(before), Ok(after)) => before < after,
        _ => false,
    }
}

/// The index of the capability that a key names: its third segment, read
/// as a decimal number.
pub open spec fn capability_of_key(key: Seq<Seq<char>>) -> Result<u64, ErrorView> {
    if key.len() > 2 {
        match parse_text(key[2]) {
            Ok(index) => Ok(index),
            Err(e) => Err(
                ErrorView::CapabilityError(
                    "The key has a non-number index: Key "@ + join_path(key) + ", "@
                        + parse_error_text(e),
                ),
            ),
        }
    } else {
        Err(
            ErrorView::CapabilityError(
                "The key doesn't have a capability index: Key "@ + join_path(key),
            ),
        )
    }
}

/// The judgment on a capability and the port recorded for it: the
/// capability must be the one recorded as the owner of that port.
pub open spec fn owner_ruling(post: SnapshotView, index: u64, port_id: Seq<char>) -> Result<
    bool,
    ErrorView,
> {
    if module_by_port(post, port_id) == Some(index) {
        Ok(true)
    } else {
        Err(
            ErrorView::CapabilityError(
                "The capability is not mapped: Index "@ + decimal_text(index as nat) + ", Port "@
                    + port_id,
            ),
        )
    }
}

/// Whether a key names a capability whose recorded port is not recorded
/// as owned by that capability: by another one, or by none.
pub open spec fn owner_differs(post: SnapshotView, key: Seq<Seq<char>>) -> bool {
    match capability_of_key(key) {
        Ok(index) => match port_by_capability(post, index) {
            Ok(port_id) => module_by_port(post, port_id) != Some(index),
            Err(_) => false,
        },
        Err(_) => false,
    }
}

/// Whether a key of a capability, or of the counter of capabilities, is
/// accepted. The counter must have grown. The entry of a capability must be
/// newly created, and the port recorded for the capability must in turn
/// record that capability as its owner.
pub open spec fn capability_key_accepted(
    pre: SnapshotView,
    post: SnapshotView,
    key: Seq<Seq<char>>,
) -> bool {
    if key == capability_counter_key() {
        counter_grows(pre, post)
    } else {
        &&& state_change(pre, post, key) == Ok::<StateChange, Seq<char>>(StateChange::Created)
        &&& capability_of_key(key) matches Ok(index)
        &&& port_by_capability(post, index) matches Ok(port_id)
        &&& module_by_port(post, port_id) == Some(index)
    }
}

/// The judgment on a key of a capability, or of the counter of
/// capabilities.
pub open spec fn capability_key_ruling(
    pre: SnapshotView,
    post: SnapshotView,
    key: Seq<Seq<char>>,
) -> Result<bool, ErrorView> {
    if key == capability_counter_key() {
        counter_ruling(pre, post)
    } else {
        match state_change(pre, post, key) {
            Err(reason) => Err(ErrorView::StateChangeError(reason)),
            Ok(StateChange::Created) => match capability_of_key(key) {
                Err(e) => Err(e),
                Ok(index) => match port_by_capability(post, index) {
                    Err(e) => Err(e),
                    Ok(port_id) => owner_ruling(post, index, port_id),
                },
            },
            Ok(_) => Err(
                ErrorView::StateChangeError(
                    "The state change of the capability is invalid: key "@ + join_path(key),
                ),
            ),
        }
    }
}

/// The model of a capability that may be missing, with the words that say
/// why.
pub open spec fn capability_view(r: Result<Capability, String>) -> Result<u64, Seq<char>> {
    match r {
        Ok(cap) => Ok(cap.index()),
        Err(words) => Err(words@),
    }
}

/// The model of a capability that a key may fail to name.
pub open spec fn capability_result_view(r: Result<Capability, Error>) -> Result<u64, ErrorView> {
    match r {
        Ok(cap) => Ok(cap.index()),
        Err(e) => Err(e@),
    }
}

/// The state of the store before and after one transaction.
#[derive(Debug)]
pub struct Ibc {
    /// The store before the transaction.
    pub pre: Snapshot,
    /// The store after the transaction.
    pub post: Snapshot,
}

impl Ibc {
    /// Judges over the given snapshots.
    pub fn new(pre: Snapshot, post: Snapshot) -> (ibc: Ibc)
        ensures
            ibc.pre@ == pre@,
            ibc.post@ == post@,
    {
        Ibc { pre, post }
    }

    /// How the entry of a key changed with the transaction. The error is
    /// the reason why the key could not be read.
    pub fn get_state_change(&self, key: &Key) -> (r: Result<StateChange, String>)
        ensures
            change_view(r) == state_change(self.pre@, self.post@, key@),
    {
        let before = match self.pre.read(key) {
            Ok(found) => found.is_some(),
            Err(reason) => {
                return Err(reason.clone());
            },
        };
        let after = match self.post.read(key) {
            Ok(found) => found.is_some(),
            Err(reason) => {
                return Err(reason.clone());
            },
        };
        if before {
            if after {
                Ok(StateChange::Modified)
            } else {
                Ok(StateChange::Deleted)
            }
        } else if after {
            Ok(StateChange::Created)
        } else {
            Ok(StateChange::NotExists)
        }
    }

    /// Judges a key of a port. `Ok(true)` accepts the change; every
    /// rejection is an error that names its reason.
    pub fn validate_port(&self, key: &Key) -> (r: Result<bool, Error>)
        ensures
            result_view(r) == port_key_ruling(self.pre@, self.post@, key@),
            r is Ok ==> r == Ok::<bool, Error>(true),
            r is Ok <==> port_key_accepted(self.pre@, self.post@, key@),
            key@.len() > 3 && authenticated_capability(self.post@, key@[3]) is Err ==> r is Err,
            key@.len() > 3 && state_change(self.pre@, self.post@, port_key(key@[3])) != Ok::<
                StateChange,
                Seq<char>,
            >(StateChange::Created) ==> r is Err,
    {
        match Ibc::get_port_id(key) {
            Ok(port_id) => self.validate_port_binding(&port_id),
            Err(e) => Err(e),
        }
    }

    /// The port identifier that a key names: its fourth segment.
    pub fn get_port_id(key: &Key) -> (r: Result<PortId, Error>)
        ensures
            result_deep_view(r) == port_id_of_key(key@),
    {
        if key.segments.len() > 3 {
            match PortId::parse(key.segments[3].as_str()) {
                Ok(port_id) => Ok(port_id),
                Err(words) => Err(Error::KeyError(words)),
            }
        } else {
            Err(
                Error::KeyError(
                    concat("The key doesn't have a port ID: Key ", key.to_text().as_str()),
                ),
            )
        }
    }

    /// How the entry of a port changed with the transaction.
    pub fn get_port_state_change(&self, port_id: &PortId) -> (r: Result<StateChange, Error>)
        ensures
            match state_change(self.pre@, self.post@, port_key(port_id@)) {
                Ok(change) => result_view(r) == Ok::<StateChange, ErrorView>(change),
                Err(reason) => result_view(r) == Err::<StateChange, ErrorView>(
                    ErrorView::StateChangeError(reason),
                ),
            },
    {
        let key = port_path(port_id);
        match self.get_state_change(&key) {
            Ok(change) => Ok(change),
            Err(reason) => Err(Error::StateChangeError(reason)),
        }
    }

    /// Judges a port: it must be newly created, and authenticated by a
    /// capability.
    pub fn validate_port_binding(&self, port_id: &PortId) -> (r: Result<bool, Error>)
        ensures
            result_view(r) == port_ruling(self.pre@, self.post@, port_id@),
            r is Ok ==> r == Ok::<bool, Error>(true),
            r is Ok <==> port_accepted(self.pre@, self.post@, port_id@),
            authenticated_capability(self.post@, port_id@) is Err ==> r is Err,
            state_change(self.pre@, self.post@, port_key(port_id@)) != Ok::<StateChange, Seq<char>>(
                StateChange::Created,
            ) ==> r is Err,
    {
        match self.get_port_state_change(port_id) {
            Err(e) => Err(e),
            Ok(StateChange::Created) => match self.authenticated_capability(port_id) {
                Ok(_) => Ok(true),
                Err(words) => {
                    let mut details = concat(
                        "The port is not authenticated: ID ",
                        port_id.as_str(),
                    );
                    details.append(", ");
                    details.append(words.as_str());
                    Err(Error::PortError(details))
                },
            },
            Ok(_) => Err(
                Error::PortError(
                    concat("The state change of the port is invalid: Port ", port_id.as_str()),
                ),
            ),
        }
    }

    /// The capability that authenticates a port: the one recorded as its
    /// owner, if the port is in turn the one recorded for that capability.
    pub fn authenticated_capability(&self, port_id: &PortId) -> (r: Result<Capability, String>)
        ensures
            capability_view(r) == authenticated_capability(self.post@, port_id@),
    {
        match self.lookup_module_by_port(port_id) {
            Some(cap) => {
                if self.authenticate(&cap, port_id) {
                    Ok(cap)
                } else {
                    Err("the capability of the port is not mapped to it".to_owned())
                }
            },
            None => Err("no capability is mapped to the port".to_owned()),
        }
    }

    /// Judges a key of a capability, or of the counter of capabilities.
    /// `Ok(true)` accepts the change; every rejection is an error that names
    /// its reason.
    pub fn validate_capability(&self, key: &Key) -> (r: Result<bool, Error>)
        ensures
            result_view(r) == capability_key_ruling(self.pre@, self.post@, key@),
            r is Ok ==> r == Ok::<bool, Error>(true),
            r is Ok <==> capability_key_accepted(self.pre@, self.post@, key@),
            key@ == capability_counter_key() ==> (r is Ok <==> counter_grows(self.pre@, self.post@)),
            key@ != capability_counter_key() && state_change(self.pre@, self.post@, key@) != Ok::<
                StateChange,
                Seq<char>,
            >(StateChange::Created) ==> r is Err,
            key@ != capability_counter_key() && owner_differs(self.post@, key@) ==> r is Err,
    {
        if is_capability_counter_key(key) {
            let before = match self.capability_index_pre() {
                Ok(value) => value,
                Err(e) => {
                    return Err(e);
                },
            };
            let after = match self.capability_index() {
                Ok(value) => value,
                Err(e) => {
                    return Err(e);
                },
            };
            if before < after {
                Ok(true)
            } else {
                let mut details = concat(
                    "The capability index is invalid: Pre ",
                    u64_to_text(before).as_str(),
                );
                details.append(", Post ");
                details.append(u64_to_text(after).as_str());
                Err(Error::CapabilityError(details))
            }
        } else {
            match self.get_state_change(key) {
                Err(reason) => Err(Error::StateChangeError(reason)),
                Ok(StateChange::Created) => {
                    let cap = match Ibc::get_capability(key) {
                        Ok(cap) => cap,
                        Err(e) => {
                            return Err(e);
                        },
                    };
                    match self.get_port_by_capability(&cap) {
                        Ok(port_id) => self.validate_capability_owner(&cap, &port_id),
                        Err(e) => Err(e),
                    }
                },
                Ok(_) => Err(
                    Error::StateChangeError(
                        concat(
                            "The state change of the capability is invalid: key ",
                            key.to_text().as_str(),
                        ),
                    ),
                ),
            }
        }
    }

    /// Judges a capability against the port recorded for it: the
    /// capability must be the one recorded as the owner of that port.
    pub fn validate_capability_owner(&self, cap: &Capability, port_id: &PortId) -> (r: Result<
        bool,
        Error,
    >)
        ensures
            result_view(r) == owner_ruling(self.post@, cap.index(), port_id@),
            r is Ok ==> r == Ok::<bool, Error>(true),
            r is Ok <==> module_by_port(self.post@, port_id@) == Some(cap.index()),
    {
        let accepted = match self.lookup_module_by_port(port_id) {
            Some(owner) => owner.index() == cap.index(),
            None => false,
        };
        if accepted {
            Ok(true)
        } else {
            let mut details = concat(
                "The capability is not mapped: Index ",
                u64_to_text(cap.index()).as_str(),
            );
            details.append(", Port ");
            details.append(port_id.as_str());
            Err(Error::CapabilityError(details))
        }
    }

    /// Reads the counter under a key as it was before the transaction.
    pub fn read_counter_pre(&self, key: &Key) -> (r: Result<u64, String>)
        ensures
            counter_view(r) == counter_outcome(self.pre@, key@),
    {
        self.pre.read_counter(key)
    }

    /// Reads the counter under a key as it is after the transaction.
    pub fn read_counter(&self, key: &Key) -> (r: Result<u64, String>)
        ensures
            counter_view(r) == counter_outcome(self.post@, key@),
    {
        self.post.read_counter(key)
    }

    /// The value of the counter of capabilities before the transaction.
    pub fn capability_index_pre(&self) -> (r: Result<u64, Error>)
        ensures
            result_view(r) == counter_value(self.pre@),
    {
        let key = capability_counter_path();
        match self.read_counter_pre(&key) {
            Ok(value) => Ok(value),
            Err(words) => Err(Error::CapabilityError(words)),
        }
    }

    /// The value of the counter of capabilities after the transaction.
    pub fn capability_index(&self) -> (r: Result<u64, Error>)
        ensures
            result_view(r) == counter_value(self.post@),
    {
        let key = capability_counter_path();
        match self.read_counter(&key) {
            Ok(value) => Ok(value),
            Err(words) => Err(Error::CapabilityError(words)),
        }
    }

    /// The capability that a key names: the one whose index is the key's
    /// third segment.
    pub fn get_capability(key: &Key) -> (r: Result<Capability, Error>)
        ensures
            capability_result_view(r) == capability_of_key(key@),
    {
        if key.segments.len() > 2 {
            match parse_u64(key.segments[2].as_str()) {
                Ok(index) => {
                    proof {
                        Capability::lemma_index_of_made(index);
                    }
                    Ok(Capability::from(index))
                },
                Err(e) => {
                    let mut details = concat(
                        "The key has a non-number index: Key ",
                        key.to_text().as_str(),
                    );
                    details.append(", ");
                    details.append(e.to_text().as_str());
                    Err(Error::CapabilityError(details))
                },
            }
        } else {
            Err(
                Error::CapabilityError(
                    concat(
                        "The key doesn't have a capability index: Key ",
                        key.to_text().as_str(),
                    ),
                ),
            )
        }
    }

    /// The port that the snapshot after the transaction records for a
    /// capability.
    pub fn get_port_by_capability(&self, cap: &Capability) -> (r: Result<PortId, Error>)
        ensures
            result_deep_view(r) == port_by_capability(self.post@, cap.index()),
    {
        let key = capability_path(cap.index());
        match self.post.read(&key) {
            Ok(Some(value)) => {
                let id = match decode_text(value.as_slice()) {
                    Ok(id) => id,
                    Err(e) => {
                        return Err(
                            Error::PortError(
                                concat("Decoding the port ID failed: ", e.to_text().as_str()),
                            ),
                        );
                    },
                };
                match PortId::parse(id.as_str()) {
                    Ok(port_id) => Ok(port_id),
                    Err(words) => Err(Error::PortError(words)),
                }
            },
            Ok(None) => Err(
                Error::PortError("The capability is not mapped to any port".to_owned()),
            ),
            Err(reason) => Err(
                Error::PortError(concat("Reading the port failed ", reason.as_str())),
            ),
        }
    }

    /// The capability that the snapshot after the transaction records as
    /// the owner of a port. A port without an entry, or with one that cannot
    /// be read or decoded, has none: that is no fault.
    pub fn lookup_module_by_port(&self, port_id: &PortId) -> (r: Option<Capability>)
        ensures
            index_of(r) == module_by_port(self.post@, port_id@),
    {
        let key = port_path(port_id);
        match self.post.read(&key) {
            Ok(Some(value)) => match decode_u64(value.as_slice()) {
                Ok(index) => {
                    proof {
                        Capability::lemma_index_of_made(index);
                    }
                    Some(Capability::from(index))
                },
                Err(_) => None,
            },
            _ => None,
        }
    }

    /// Whether a capability entitles its holder to act as a port: whether
    /// the snapshot after the transaction records that port for it.
    pub fn authenticate(&self, cap: &Capability, port_id: &PortId) -> (r: bool)
        ensures
            r == authenticated(self.post@, cap.index(), port_id@),
            r == (port_by_capability(self.post@, cap.index()) == Ok::<Seq<char>, ErrorView>(
                port_id@,
            )),
    {
        proof {
            use_type_invariant(port_id);
            port_id.lemma_accepted();
        }
        match self.get_port_by_capability(cap) {
            Ok(p) => p == *port_id,
            Err(_) => false,
        }
    }
}

/// The key under which the port of a capability is recorded names that
/// capability.
pub proof fn lemma_capability_key_names_it(index: u64)
    ensures
        capability_of_key(capability_key(index)) == Ok::<u64, ErrorView>(index),
{
    lemma_decimal_round_trip(index);
}

/// A capability whose key is accepted authenticates the port recorded for
/// it, and is the capability that authenticates that port.
pub proof fn lemma_accepted_capability_authenticates(
    pre: SnapshotView,
    post: SnapshotView,
    key: Seq<Seq<char>>,
)
    requires
        key != capability_counter_key(),
        capability_key_accepted(pre, post, key),
    ensures
        ({
            &&& capability_of_key(key) matches Ok(index)
            &&& port_by_capability(post, index) matches Ok(port_id)
            &&& authenticated(post, index, port_id)
            &&& authenticated_capability(post, port_id) == Ok::<u64, Seq<char>>(index)
        }),
{
}

/// For an identifier that the rules accept, to be authenticated by a
/// capability is to be the port that the lookup finds for it.
pub proof fn lemma_authenticated_is_found(post: SnapshotView, index: u64, port_id: Seq<char>)
    ensures
        port_id_refusal(port_id) is None ==> (authenticated(post, index, port_id)
            <==> port_by_capability(post, index) == Ok::<Seq<char>, ErrorView>(port_id)),
{
}

/// A capability authenticates the port that is recorded for it, and no
/// other port.
pub proof fn lemma_authenticate_round_trip(
    post: SnapshotView,
    index: u64,
    port_id: Seq<char>,
    other: Seq<char>,
)
    requires
        port_by_capability(post, index) == Ok::<Seq<char>, ErrorView>(port_id),
    ensures
        authenticated(post, index, port_id),
        other != port_id ==> !authenticated(post, index, other),
{
}

/// What the lookups answer is decided by the snapshot after the
/// transaction alone: asked again, of the same snapshot or of an equal one,
/// they answer the same.
pub proof fn lemma_lookups_repeat(first: Ibc, second: Ibc, index: u64, port_id: Seq<char>)
    requires
        first.post@ == second.post@,
    ensures
        module_by_port(first.post@, port_id) == module_by_port(second.post@, port_id),
        authenticated(first.post@, index, port_id) == authenticated(
            second.post@,
            index,
            port_id,
        ),
{
}

} // verus!
