//! The descriptor/address emitter: a thin boundary to the external policy
//! compiler, which turns an assembled policy into a spendable descriptor
//! and a network-specific deposit address.
use vstd::prelude::*;

use std::str::FromStr;

verus! {

/// What the external policy compiler produces from a policy text and a
/// network code: the descriptor and address strings, or nothing when the
/// policy cannot be compiled into a spendable script. The result is a
/// deterministic function of the policy text and the network alone.
pub uninterp spec fn wsh_compilation(policy: Seq<u8>, network: u8) -> Option<
    (Seq<char>, Seq<char>),
>;

/// Relies on miniscript's `Concrete::from_str` (the textual policy parser),
/// `Concrete::compile` (the deterministic policy-to-script compiler),
/// `Descriptor::new_wsh` and `Descriptor::address`: together a function of
/// the policy text and the network code alone. Network codes follow
/// `crate::context::network_code`.
#[verifier::external_body]
pub fn compile_policy_text(policy: &Vec<u8>, network: u8) -> (r: Result<(String, String), String>)
    ensures
        match r {
            Ok((d, a)) => wsh_compilation(policy@, network) == Some((d@, a@)),
            Err(_) => wsh_compilation(policy@, network) == None::<(Seq<char>, Seq<char>)>,
        },
{
    let text = String::from_utf8_lossy(policy.as_slice());
    let pol = miniscript::policy::Concrete::<bitcoin::PublicKey>::from_str(&text).map_err(
        |e| format!("{}", e),
    )?;
    let ms = pol.compile::<miniscript::Segwitv0>().map_err(|e| format!("{}", e))?;
    let desc = miniscript::Descriptor::new_wsh(ms).map_err(|e| format!("{}", e))?;
    let net = match network {
        0 => bitcoin::Network::Bitcoin,
        1 => bitcoin::Network::Testnet,
        2 => bitcoin::Network::Signet,
        _ => bitcoin::Network::Regtest,
    };
    let addr = desc.address(net).map_err(|e| format!("{}", e))?;
    Ok((format!("{}", desc), format!("{}", addr)))
}

} // verus!
