//! Port identifiers: validated names of protocol endpoints.

use std::str::FromStr;
use vstd::prelude::*;

verus! {

/// What `PortId::from_str` of the `ibc` crate answers for a text: `None`
/// where it accepts the text as a port identifier, and where it refuses the
/// text, the words that its error displays.
pub uninterp spec fn port_id_refusal(text: Seq<char>) -> Option<Seq<char>>;

/// Asks `PortId::from_str` of the `ibc` crate whether a text is a port
/// identifier. Nothing is proved of this function: it is believed that the
/// answer is the one named by [`port_id_refusal`], nothing for an accepted
/// text and the displayed error for a refused one, and that an accepted
/// text holds no `/`. The crate admits only alphanumeric characters and
/// `._+-#[]<>`.
#[verifier::external_body]
fn check_port_id(text: &str) -> (refusal: Option<String>)
    ensures
        refusal is None <==> port_id_refusal(text@) is None,
        refusal matches Some(words) ==> port_id_refusal(text@) == Some(words@),
        refusal is None ==> !text@.contains('/'),
{
    match ibc::core::host::types::identifiers::PortId::from_str(text) {
        Ok(_) => None,
        Err(e) => Some(e.to_string()),
    }
}

/// Asks the `ibc` crate for the store path of a port, with `to_string` on
/// its `PortPath`. Nothing is proved of this function: it is believed that
/// the path is `ports/` followed by the identifier, as the crate's display
/// format for `PortPath` says. The crate's identifier is made with
/// `PortId::from_str`, so there is no path for a text that it refuses.
#[verifier::external_body]
fn port_path_text(id: &str) -> (path: Option<String>)
    ensures
        path is Some <==> port_id_refusal(id@) is None,
        path matches Some(p) ==> p@ == "ports/"@ + id@,
{
    match ibc::core::host::types::identifiers::PortId::from_str(id) {
        Ok(port_id) => Some(ibc::core::host::types::path::PortPath(port_id).to_string()),
        Err(_) => None,
    }
}

/// A port identifier. Every value holds a text that the identifier rules
/// accept.
#[derive(Debug)]
pub struct PortId {
    text: String,
}

impl View for PortId {
    type V = Seq<char>;

    closed spec fn view(&self) -> Seq<char> {
        self.text@
    }
}

impl Clone for PortId {
    fn clone(&self) -> (copy: PortId)
        ensures
            copy@ == self@,
    {
        proof {
            use_type_invariant(self);
        }
        PortId { text: self.text.clone() }
    }
}

impl PartialEq for PortId {
    fn eq(&self, other: &PortId) -> (r: bool) {
        self.text == other.text
    }
}

impl Eq for PortId {

}

impl vstd::std_specs::cmp::PartialEqSpecImpl for PortId {
    open spec fn obeys_eq_spec() -> bool {
        true
    }

    open spec fn eq_spec(&self, other: &PortId) -> bool {
        self@ == other@
    }
}

impl PortId {
    /// What holds of every port identifier: the identifier rules accept
    /// its text, which therefore holds no `/`.
    #[verifier::type_invariant]
    pub closed spec fn accepted(self) -> bool {
        &&& port_id_refusal(self.text@) is None
        &&& !self.text@.contains('/')
    }

    /// What [`PortId::accepted`] says of the text of an identifier.
    pub proof fn lemma_accepted(self)
        requires
            self.accepted(),
        ensures
            port_id_refusal(self@) is None,
            !self@.contains('/'),
    {
    }

    /// Validates a text as a port identifier. The error holds the words of
    /// the refusal.
    pub fn parse(text: &str) -> (r: Result<PortId, String>)
        ensures
            match r {
                Ok(port_id) => port_id_refusal(text@) is None && port_id@ == text@,
                Err(words) => port_id_refusal(text@) == Some(words@),
            },
    {
        match check_port_id(text) {
            None => Ok(PortId { text: text.to_owned() }),
            Some(words) => Err(words),
        }
    }

    /// The text of this identifier.
    pub fn as_str(&self) -> (text: &str)
        ensures
            text@ == self@,
    {
        self.text.as_str()
    }

    /// The store path of this port: `ports/` followed by the identifier.
    pub fn store_path(&self) -> (path: String)
        ensures
            path@ == "ports/"@ + self@,
    {
        proof {
            use_type_invariant(self);
        }
        match port_path_text(self.text.as_str()) {
            Some(path) => path,
            None => vstd::pervasive::unreached(),
        }
    }
}

} // verus!
