//! The funding output script: every channel funds a segwit output, and
//! the node normalizes the engine-supplied script through its
//! witness-program form before handing it to the wallet.

use vstd::prelude::*;

use crate::types::Network;

verus! {

/// A well-formed segwit scriptpubkey: `[version opcode, program length,
/// program]` with a version of 0 to 16, a program of 2 to 40 bytes, and
/// for version 0 a program of exactly 20 or 32 bytes.
pub open spec fn is_segwit_script(s: Seq<u8>) -> bool {
    &&& s.len() >= 4
    &&& s.len() == 2 + s[1]
    &&& (s[0] == 0 || (0x51 <= s[0] && s[0] <= 0x60))
    &&& s.len() <= 42
    &&& (s[0] == 0 ==> (s.len() == 22 || s.len() == 34))
}

/// Decides whether bytes form a well-formed segwit scriptpubkey.
pub fn check_segwit_script(s: &Vec<u8>) -> (r: bool)
    ensures
        r == is_segwit_script(s@),
{
    if s.len() < 4 || s.len() > 42 {
        return false;
    }
    let len_byte = s[1];
    if s.len() != 2 + (len_byte as usize) {
        return false;
    }
    let version = s[0];
    if !(version == 0 || (0x51 <= version && version <= 0x60)) {
        return false;
    }
    if version == 0 && !(s.len() == 22 || s.len() == 34) {
        return false;
    }
    true
}

/// Relies on `bitcoin_bech32::WitnessProgram::from_scriptpubkey` and
/// `WitnessProgram::to_scriptpubkey`: on a well-formed segwit
/// scriptpubkey the first parses `[version, length, program]` and the
/// second writes the same three parts back, so the round trip returns
/// the input bytes; with the version and lengths already checked,
/// parsing cannot fail.
#[verifier::external_body]
pub(crate) fn segwit_roundtrip(script: &Vec<u8>, network: Network) -> (r: Vec<u8>)
    requires
        is_segwit_script(script@),
    ensures
        r@ == script@,
{
    let net = match network {
        Network::Bitcoin => bitcoin_bech32::constants::Network::Bitcoin,
        Network::Testnet => bitcoin_bech32::constants::Network::Testnet,
        Network::Regtest => bitcoin_bech32::constants::Network::Regtest,
        Network::Signet => bitcoin_bech32::constants::Network::Signet,
    };
    match bitcoin_bech32::WitnessProgram::from_scriptpubkey(&script[..], net) {
        Ok(program) => program.to_scriptpubkey(),
        Err(_) => Vec::new(),
    }
}

} // verus!
