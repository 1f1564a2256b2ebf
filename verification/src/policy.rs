//! The undocumented policy service: which class and interface identifiers
//! are tried, in which order, and how its table of functions is indexed.

use vstd::prelude::*;

verus! {

/// One way to reach the policy service: the identifier of the class to
/// instantiate and of the interface to ask it for, each as a 128-bit number.
#[derive(Clone, Copy, Debug, PartialEq, Eq, Structural)]
pub struct PolicyCandidate {
    pub class_id: u128,
    pub interface_id: u128,
}

/// Class identifier of the client variant of the policy service.
pub const CLIENT_CLASS: u128 = 0x294935ce_f637_4e7c_a41b_ab255460b862;

/// Interface identifier that goes with [`CLIENT_CLASS`].
pub const CLIENT_INTERFACE: u128 = 0x568b9108_44bf_40b4_9006_86afe5b5a620;

/// Class identifier of the alternate variant of the policy service.
pub const ALTERNATE_CLASS: u128 = 0x870af99c_171d_4f9e_af0d_e63df40c2bc9;

/// Interface identifier that goes with [`ALTERNATE_CLASS`].
pub const ALTERNATE_INTERFACE: u128 = 0xf8679f50_850a_41cf_9c72_430f290290c8;

/// The contexts in which the service may be instantiated: every one.
pub const CONTEXT_ALL: u32 = 23;

/// Position of "set default endpoint" in the service's table of functions.
pub const SET_DEFAULT_ENDPOINT_SLOT: usize = 12;

/// Position of "release" in the service's table of functions.
pub const RELEASE_SLOT: usize = 2;

/// The role that stands for general, multimedia use of an endpoint.
pub const ROLE_MULTIMEDIA: u32 = 1;

/// The two known candidates, the client variant first.
pub open spec fn known_candidates() -> Seq<PolicyCandidate> {
    seq![
        PolicyCandidate { class_id: CLIENT_CLASS, interface_id: CLIENT_INTERFACE },
        PolicyCandidate { class_id: ALTERNATE_CLASS, interface_id: ALTERNATE_INTERFACE },
    ]
}

/// The candidates that an operation tries when it is given no others.
pub fn default_candidates() -> (candidates: Vec<PolicyCandidate>)
    ensures
        candidates@ == known_candidates(),
{
    let mut candidates: Vec<PolicyCandidate> = Vec::new();
    candidates.push(PolicyCandidate { class_id: CLIENT_CLASS, interface_id: CLIENT_INTERFACE });
    candidates.push(
        PolicyCandidate { class_id: ALTERNATE_CLASS, interface_id: ALTERNATE_INTERFACE },
    );
    assert(candidates@ =~= known_candidates());
    candidates
}

/// An instantiation gave a live instance: the status is exactly zero and a
/// reference came back.
pub open spec fn is_live(code: int, present: bool) -> bool {
    code == 0 && present
}

/// Whether the reply to an instantiation leaves an instance to work with.
pub fn instance_is_live(code: i32, present: bool) -> (live: bool)
    ensures
        live == is_live(code as int, present),
{
    code == 0 && present
}

/// Whether the reply to "set default endpoint" reports that the default
/// changed: the status is exactly zero.
pub fn commit_succeeded(code: i32) -> (ok: bool)
    ensures
        ok == (code == 0),
{
    code == 0
}

} // verus!
