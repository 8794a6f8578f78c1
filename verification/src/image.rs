//! The bytecode verifier: only an image that the runtime would load goes on to the ledger.

use crate::error::DeployError;
use solana_bpf_loader_program::syscalls::create_program_runtime_environment_v1;
use solana_program_runtime::compute_budget::ComputeBudget;
use solana_program_runtime::invoke_context::InvokeContext;
use solana_rbpf::elf::Executable;
use solana_rbpf::verifier::RequisiteVerifier;
use solana_sdk::feature_set::FeatureSet;
use std::sync::Arc;
use vstd::prelude::*;
use vstd::string::*;

verus! {

/// Whether the runtime's loader, with every feature enabled, the default compute budget
/// and broken images rejected, loads `bytes` as an executable and its verifier passes
/// the loaded program.
pub uninterp spec fn loader_accepts(bytes: Seq<u8>) -> bool;

/// Makes the loader's environment with
/// `solana_bpf_loader_program::syscalls::create_program_runtime_environment_v1`, loads
/// `bytes` with `solana_rbpf::elf::Executable::from_elf` and runs
/// `Executable::verify::<RequisiteVerifier>` on the result. The three read nothing but
/// their arguments, and the environment is made from constants, so whether all three
/// succeed depends on `bytes` alone: that is what the contract names `loader_accepts`.
/// Of the text of a refusal it claims nothing.
#[verifier::external_body]
pub(crate) fn check_bytecode(bytes: &Vec<u8>) -> (r: Result<(), String>)
    ensures
        r is Ok <==> loader_accepts(bytes@),
{
    let environment = match create_program_runtime_environment_v1(
        &FeatureSet::all_enabled(),
        &ComputeBudget::default(),
        true,
        false,
    ) {
        Ok(environment) => Arc::new(environment),
        Err(err) => return Err(err.to_string()),
    };
    match Executable::<InvokeContext>::from_elf(bytes, environment) {
        Ok(executable) => executable.verify::<RequisiteVerifier>().map_err(|err| err.to_string()),
        Err(err) => Err(err.to_string()),
    }
}

/// An image that passed verification. Its bytes are those that were handed in:
/// verification accepts or refuses and never rewrites.
#[derive(Clone, Debug, PartialEq, Eq)]
pub struct VerifiedImage {
    bytes: Vec<u8>,
}

impl View for VerifiedImage {
    type V = Seq<u8>;

    closed spec fn view(&self) -> Seq<u8> {
        self.bytes@
    }
}

impl VerifiedImage {
    /// The image's bytes.
    pub fn bytes(&self) -> (r: &Vec<u8>)
        ensures
            r@ == self@,
    {
        &self.bytes
    }

    /// Number of bytes of the image.
    pub fn len(&self) -> (r: usize)
        ensures
            r == self@.len(),
    {
        self.bytes.len()
    }
}

/// What the text of a refused image says: the loader's own words behind a fixed opening.
pub open spec fn refusal_text(loader_words: Seq<char>) -> Seq<char> {
    "ELF error: "@ + loader_words
}

/// Lets `raw` pass where the loader's verdict on it was `Ok`, and turns the loader's
/// refusal into a verification error.
pub fn admit_image(raw: Vec<u8>, verdict: Result<(), String>) -> (r: Result<VerifiedImage, DeployError>)
    ensures
        match verdict {
            Ok(_) => r matches Ok(image) && image@ == raw@,
            Err(words) => r matches Err(DeployError::Verification { message }) && message@
                == refusal_text(words@),
        },
{
    match verdict {
        Ok(_) => Ok(VerifiedImage { bytes: raw }),
        Err(words) => {
            let message = String::from_str("ELF error: ").concat(words.as_str());
            Err(DeployError::Verification { message })
        },
    }
}

/// Checks that `raw` is bytecode that the runtime would load, and hands the same bytes
/// back as a verified image.
pub fn verify_elf(raw: Vec<u8>) -> (r: Result<VerifiedImage, DeployError>)
    ensures
        r is Ok <==> loader_accepts(raw@),
        r matches Ok(image) ==> image@ == raw@,
        r matches Err(e) ==> e is Verification,
{
    let verdict = check_bytecode(&raw);
    admit_image(raw, verdict)
}

/// The image behind `source`, verified. `source` is what reading the image gave: its
/// bytes, or the text of the read error.
pub fn load_image(source: Result<Vec<u8>, String>) -> (r: Result<VerifiedImage, DeployError>)
    ensures
        match source {
            Ok(raw) => {
                &&& r is Ok <==> loader_accepts(raw@)
                &&& r matches Ok(image) ==> image@ == raw@
                &&& r matches Err(e) ==> e is Verification
            },
            Err(text) => r matches Err(DeployError::LocalIo { message }) && message@ == text@,
        },
{
    match source {
        Ok(raw) => verify_elf(raw),
        Err(text) => Err(DeployError::LocalIo { message: text }),
    }
}

} // verus!
