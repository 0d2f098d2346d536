//! The canonical keys of the port and capability bookkeeping.

use crate::decimal::{
    decimal_text, lemma_decimal_text_is_digits, lemma_decimal_text_is_injective, u64_to_text,
};
use crate::identifier::PortId;
use crate::key::{ibc_prefix, lemma_split_last_segment, lemma_split_plain, Key};
use vstd::prelude::*;

verus! {

/// The key under which the capability that owns a port is recorded.
pub open spec fn port_key(port_id: Seq<char>) -> Seq<Seq<char>> {
    seq![ibc_prefix(), "ports"@, port_id]
}

/// The key under which the port of a capability is recorded.
pub open spec fn capability_key(index: u64) -> Seq<Seq<char>> {
    seq![ibc_prefix(), "capabilities"@, decimal_text(index as nat)]
}

/// The key of the counter of issued capabilities.
pub open spec fn capability_counter_key() -> Seq<Seq<char>> {
    seq![ibc_prefix(), "capabilities"@, "index"@]
}

/// No two ports share a key, no two capabilities do, and the keys of
/// ports, of capabilities and of the counter never coincide.
pub proof fn lemma_keys_are_distinct(
    port_id: Seq<char>,
    other_port_id: Seq<char>,
    index: u64,
    other_index: u64,
)
    ensures
        port_key(port_id) == port_key(other_port_id) ==> port_id == other_port_id,
        capability_key(index) == capability_key(other_index) ==> index == other_index,
        port_key(port_id) != capability_key(index),
        port_key(port_id) != capability_counter_key(),
        capability_key(index) != capability_counter_key(),
{
    reveal_strlit("ports");
    reveal_strlit("capabilities");
    reveal_strlit("index");
    if port_key(port_id) == port_key(other_port_id) {
    }
    if capability_key(index) == capability_key(other_index) {
        lemma_decimal_text_is_injective(index, other_index);
    }
    assert(port_key(port_id)[1].len() != capability_counter_key()[1].len());
    lemma_decimal_text_is_digits(index as nat);
    assert(capability_key(index)[2][0] != capability_counter_key()[2][0]);
}

/// The key under which the capability that owns a port is recorded.
pub fn port_path(port_id: &PortId) -> (key: Key)
    ensures
        key@ == port_key(port_id@),
{
    let path = port_id.store_path();
    let id = port_id.as_str();
    let key = Key::ibc_key(path.as_str());
    proof {
        use_type_invariant(port_id);
        port_id.lemma_accepted();
        reveal_strlit("ports/");
        reveal_strlit("ports");
        assert(path@ =~= "ports"@ + seq!['/'] + id@);
        lemma_split_plain("ports"@);
        lemma_split_last_segment("ports"@, id@);
    }
    key
}

/// The key under which the port of a capability is recorded.
pub fn capability_path(index: u64) -> (key: Key)
    ensures
        key@ == capability_key(index),
{
    let mut segments: Vec<String> = Vec::new();
    segments.push("IBC".to_owned());
    segments.push("capabilities".to_owned());
    segments.push(u64_to_text(index));
    let key = Key { segments };
    key
}

/// The key of the counter of issued capabilities.
pub fn capability_counter_path() -> (key: Key)
    ensures
        key@ == capability_counter_key(),
{
    let mut segments: Vec<String> = Vec::new();
    segments.push("IBC".to_owned());
    segments.push("capabilities".to_owned());
    segments.push("index".to_owned());
    let key = Key { segments };
    key
}

/// Whether a key is that of the counter of issued capabilities.
pub fn is_capability_counter_key(key: &Key) -> (r: bool)
    ensures
        r == (key@ == capability_counter_key()),
{
    *key == capability_counter_path()
}

} // verus!
