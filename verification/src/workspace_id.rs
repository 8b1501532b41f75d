//! Identifiers of virtual workspaces.
use crate::text::{decimal_text_of_width_8, number_of_digits};
use vstd::prelude::*;

verus! {

/// What a key of a slot map holds.
#[verifier::external_type_specification]
#[verifier::external_body]
pub struct ExKeyData(slotmap::KeyData);

/// A virtual workspace: the slot that holds it.
#[derive(Clone, Copy, Debug, Default, PartialOrd, Ord, Hash)]
pub struct VirtualWorkspaceId(pub slotmap::KeyData);

/// `==` on `slotmap::KeyData`: true for the same slot index and the same
/// version.
#[verifier::external_body]
fn same_key(a: slotmap::KeyData, b: slotmap::KeyData) -> (r: bool)
    ensures
        r == (a == b),
{
    a == b
}

impl PartialEq for VirtualWorkspaceId {
    fn eq(&self, other: &Self) -> (r: bool) {
        same_key(self.0, other.0)
    }
}

impl vstd::std_specs::cmp::PartialEqSpecImpl for VirtualWorkspaceId {
    open spec fn obeys_eq_spec() -> bool {
        true
    }

    open spec fn eq_spec(&self, other: &Self) -> bool {
        *self == *other
    }
}

impl Eq for VirtualWorkspaceId {

}

/// The debug text of what a slot-map key holds.
pub uninterp spec fn key_data_text(key: slotmap::KeyData) -> Seq<char>;

/// `{:?}` of `slotmap::KeyData`: the text depends on the key alone.
#[verifier::external_body]
fn key_text(key: slotmap::KeyData) -> (r: String)
    ensures
        r@ == key_data_text(key),
{
    format!("{:?}", key)
}

/// How an identifier with the debug text `debug` is shown: the number that the
/// digits in it make up, in at least eight places; the text itself where they
/// make up no number of 64 bits.
pub open spec fn shown(debug: Seq<char>) -> Seq<char> {
    let n = crate::text::number_in(debug);
    if n <= u64::MAX && exists|i: int|
        0 <= i < debug.len() && #[trigger] crate::text::is_digit(debug[i]) {
        crate::text::zero_padded(crate::text::decimal(n), 8)
    } else {
        debug
    }
}

/// The text that shows the identifier with the debug text `debug`.
pub fn show_debug_text(debug: String) -> (r: String)
    ensures
        r@ == shown(debug@),
{
    match number_of_digits(debug.as_str()) {
        Some(n) => decimal_text_of_width_8(n),
        None => debug,
    }
}

impl VirtualWorkspaceId {
    /// The name of the type around the text of the key.
    pub open spec fn debug_text(self) -> Seq<char> {
        "VirtualWorkspaceId("@ + key_data_text(self.0) + ")"@
    }

    /// The identifier as it is shown to people.
    pub fn display(self) -> (r: String)
        ensures
            r@ == shown(self.debug_text()),
    {
        let mut debug = "VirtualWorkspaceId(".to_owned();
        debug.append(key_text(self.0).as_str());
        debug.append(")");
        show_debug_text(debug)
    }
}

} // verus!
