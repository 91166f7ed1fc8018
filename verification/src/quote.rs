//! Quotes: which tools to run, in which order and with which arguments, to
//! have the TPM sign its PCRs, and how the signed quote is handed on.
//!
//! A plain quote is one `tpmquote`. Where the caller gives data to bind into
//! the quote, the data PCR is first reset and extended with the SHA-1 digest
//! of the data, and that PCR joins the mask that is quoted. A deep quote is
//! one `deepquote` over the masks of the hardware TPM and of the virtual TPM;
//! there the data PCR joins the virtual mask.

use vstd::prelude::*;
use vstd::utf8::encode_utf8;
use crate::codec::{hex_encode, hex_of_bytes, sha1_digest};
use crate::encode::{base64_zlib_encode, tagged, wire_text, QuoteKind};
use crate::mask::{
    bit_is_set, format_mask, lemma_mask_text_round_trip, lemma_with_bit_sets_only_that_bit,
    mask_text_with_bit, mask_value, parse_mask, with_bit, MaskError, EMPTYMASK,
};
use crate::metadata::TpmMetadata;
use crate::runner::EXIT_SUCCESS;
use crate::text::{decimal_text, digit_value, numeral_value, push_decimal};

verus! {

/// The PCR that data bound into a quote is extended into.
pub const TPM_DATA_PCR: u32 = 16;

/// Why no quote can be asked for.
#[derive(Clone, Copy, Debug, PartialEq, Eq, Structural)]
pub enum QuoteError {
    /// The metadata lacks the handle of the AIK or a password that the
    /// quote needs.
    MissingMetadata,
    /// Data is to be bound and the mask that its PCR should join is no mask.
    InvalidMask(MaskError),
}

/// One run of a tool: the arguments of [`crate::runner::run`].
#[derive(Debug, PartialEq, Eq)]
pub struct ToolCommand {
    /// The command line.
    pub line: String,
    /// The exit code expected of the tool.
    pub except_code: i32,
    /// Whether another exit code is a fatal error.
    pub raise_on_error: bool,
    /// The file that the tool writes, or nothing.
    pub output_path: String,
}

/// The steps that lead to a quote. [`QuotePlan::next_step`] says which to run
/// next; the file written by the last holds the raw quote.
#[derive(Debug, PartialEq, Eq)]
pub struct QuotePlan {
    /// Which protocol the quote follows.
    pub kind: QuoteKind,
    /// The tools to run, in order.
    pub commands: Vec<ToolCommand>,
}

/// What resetting and extending a PCR asks of the caller.
#[derive(Debug, PartialEq, Eq)]
pub struct Extension {
    /// The reset, then the extension.
    pub commands: Vec<ToolCommand>,
    /// The bit of the extended PCR, to be added to the mask that is quoted.
    pub bit: u32,
}

/// A step as its command line and the file it writes.
pub type Step = (Seq<char>, Seq<char>);

/// The steps of a list of commands.
pub open spec fn steps_of(commands: Seq<ToolCommand>) -> Seq<Step> {
    Seq::new(commands.len(), |i: int| (commands[i].line@, commands[i].output_path@))
}

/// Every command expects success and fails the quote otherwise.
pub open spec fn all_strict(commands: Seq<ToolCommand>) -> bool {
    forall|i: int|
        0 <= i < commands.len() ==> (#[trigger] commands[i]).except_code == EXIT_SUCCESS
            && commands[i].raise_on_error
}

/// The mask that is used: the caller's, or PCR 0 alone where the caller
/// names none.
pub open spec fn effective_mask(mask: Seq<char>) -> Seq<char> {
    if mask.len() == 0 {
        EMPTYMASK@
    } else {
        mask
    }
}

/// The command line that resets a PCR.
pub open spec fn reset_line(pcr: nat) -> Seq<char> {
    "pcrreset -ix "@ + decimal_text(pcr)
}

/// The command line that extends a PCR with a digest given in hexadecimal.
pub open spec fn extend_line(pcr: nat, digest_hex: Seq<char>) -> Seq<char> {
    "extend -ix "@ + decimal_text(pcr) + " -ic "@ + digest_hex
}

/// The command line of a plain quote.
pub open spec fn tpmquote_line(
    handle: Seq<char>,
    password: Seq<char>,
    mask: Seq<char>,
    nonce: Seq<char>,
    path: Seq<char>,
) -> Seq<char> {
    "tpmquote -hk "@ + handle + " -pwdk "@ + password + " -bm "@ + mask + " -nonce "@ + nonce
        + " -noverify -oq "@ + path
}

/// The command line of a deep quote.
pub open spec fn deepquote_line(
    handle: Seq<char>,
    mask: Seq<char>,
    vmask: Seq<char>,
    nonce: Seq<char>,
    owner_password: Seq<char>,
    password: Seq<char>,
    path: Seq<char>,
) -> Seq<char> {
    "deepquote -vk "@ + handle + " -hm "@ + mask + " -vm "@ + vmask + " -nonce "@ + nonce
        + " -pwdo "@ + owner_password + " -pwdk "@ + password + " -oq "@ + path
}

/// The two steps that bind `data` into PCR `pcr`: the reset, then the
/// extension with the digest of the data.
pub open spec fn extension_steps(pcr: nat, data: Seq<u8>) -> Seq<Step> {
    seq![
        (reset_line(pcr), Seq::<char>::empty()),
        (extend_line(pcr, hex_of_bytes(sha1_digest(data))), Seq::<char>::empty()),
    ]
}

/// The steps of a plain quote, or why there are none.
pub open spec fn plain_steps(
    metadata: TpmMetadata,
    nonce: Seq<char>,
    data: Seq<char>,
    mask: Seq<char>,
    path: Seq<char>,
) -> Result<Seq<Step>, QuoteError> {
    if metadata.aik_handle is None || metadata.aik_pw is None {
        Err(QuoteError::MissingMetadata)
    } else {
        let handle = metadata.aik_handle.unwrap()@;
        let password = metadata.aik_pw.unwrap()@;
        if data.len() == 0 {
            Ok(seq![(tpmquote_line(handle, password, effective_mask(mask), nonce, path), path)])
        } else {
            match mask_text_with_bit(effective_mask(mask), TPM_DATA_PCR) {
                Err(e) => Err(QuoteError::InvalidMask(e)),
                Ok(bound) => Ok(
                    extension_steps(TPM_DATA_PCR as nat, encode_utf8(data)).push(
                        (tpmquote_line(handle, password, bound, nonce, path), path),
                    ),
                ),
            }
        }
    }
}

/// The steps of a deep quote, or why there are none.
pub open spec fn deep_steps(
    metadata: TpmMetadata,
    nonce: Seq<char>,
    data: Seq<char>,
    mask: Seq<char>,
    vmask: Seq<char>,
    path: Seq<char>,
) -> Result<Seq<Step>, QuoteError> {
    if metadata.aik_handle is None || metadata.aik_pw is None || metadata.owner_pw is None {
        Err(QuoteError::MissingMetadata)
    } else {
        let handle = metadata.aik_handle.unwrap()@;
        let password = metadata.aik_pw.unwrap()@;
        let owner = metadata.owner_pw.unwrap()@;
        if data.len() == 0 {
            Ok(
                seq![
                    (
                        deepquote_line(
                            handle,
                            effective_mask(mask),
                            effective_mask(vmask),
                            nonce,
                            owner,
                            password,
                            path,
                        ),
                        path,
                    ),
                ],
            )
        } else {
            match mask_text_with_bit(effective_mask(vmask), TPM_DATA_PCR) {
                Err(e) => Err(QuoteError::InvalidMask(e)),
                Ok(bound) => Ok(
                    extension_steps(TPM_DATA_PCR as nat, encode_utf8(data)).push(
                        (
                            deepquote_line(
                                handle,
                                effective_mask(mask),
                                bound,
                                nonce,
                                owner,
                                password,
                                path,
                            ),
                            path,
                        ),
                    ),
                ),
            }
        }
    }
}

/// A command that must succeed.
fn strict(line: String, output_path: String) -> (command: ToolCommand)
    ensures
        command.line == line,
        command.output_path == output_path,
        command.except_code == EXIT_SUCCESS,
        command.raise_on_error,
{
    ToolCommand { line, except_code: EXIT_SUCCESS, raise_on_error: true, output_path }
}

/// The command line that resets PCR `pcr`.
pub fn pcrreset_command(pcr: u32) -> (line: String)
    ensures
        line@ == reset_line(pcr as nat),
{
    let mut line = String::new();
    line.append("pcrreset -ix ");
    push_decimal(&mut line, pcr as u64);
    assert(line@ =~= reset_line(pcr as nat));
    line
}

/// The command line that extends PCR `pcr` with `digest`.
pub fn extend_command(pcr: u32, digest: &[u8]) -> (line: String)
    ensures
        line@ == extend_line(pcr as nat, hex_of_bytes(digest@)),
{
    let mut line = String::new();
    line.append("extend -ix ");
    push_decimal(&mut line, pcr as u64);
    line.append(" -ic ");
    let digest_hex = hex_encode(digest);
    line.append(digest_hex.as_str());
    assert(line@ =~= extend_line(pcr as nat, hex_of_bytes(digest@)));
    line
}

/// The command line of a plain quote.
pub fn tpmquote_command(handle: &str, password: &str, mask: &str, nonce: &str, path: &str) -> (line:
    String)
    ensures
        line@ == tpmquote_line(handle@, password@, mask@, nonce@, path@),
{
    let mut line = String::new();
    line.append("tpmquote -hk ");
    line.append(handle);
    line.append(" -pwdk ");
    line.append(password);
    line.append(" -bm ");
    line.append(mask);
    line.append(" -nonce ");
    line.append(nonce);
    line.append(" -noverify -oq ");
    line.append(path);
    assert(line@ =~= tpmquote_line(handle@, password@, mask@, nonce@, path@));
    line
}

/// The command line of a deep quote.
pub fn deepquote_command(
    handle: &str,
    mask: &str,
    vmask: &str,
    nonce: &str,
    owner_password: &str,
    password: &str,
    path: &str,
) -> (line: String)
    ensures
        line@ == deepquote_line(
            handle@,
            mask@,
            vmask@,
            nonce@,
            owner_password@,
            password@,
            path@,
        ),
{
    let mut line = String::new();
    line.append("deepquote -vk ");
    line.append(handle);
    line.append(" -hm ");
    line.append(mask);
    line.append(" -vm ");
    line.append(vmask);
    line.append(" -nonce ");
    line.append(nonce);
    line.append(" -pwdo ");
    line.append(owner_password);
    line.append(" -pwdk ");
    line.append(password);
    line.append(" -oq ");
    line.append(path);
    assert(line@ =~= deepquote_line(
        handle@,
        mask@,
        vmask@,
        nonce@,
        owner_password@,
        password@,
        path@,
    ));
    line
}

/// The caller's mask, or the default where the caller names none.
pub fn mask_or_default(mask: String) -> (used: String)
    ensures
        used@ == effective_mask(mask@),
{
    if mask.as_str().is_empty() {
        EMPTYMASK.to_owned()
    } else {
        mask
    }
}

/// Binds `data` into PCR `pcr_index`: the PCR is to be reset and then
/// extended with the SHA-1 digest of the data. Gives the two commands and
/// the PCR's bit.
pub fn extend_measurement(pcr_index: u32, data: &[u8]) -> (extension: Extension)
    requires
        pcr_index < 32,
    ensures
        steps_of(extension.commands@) == extension_steps(pcr_index as nat, data@),
        all_strict(extension.commands@),
        extension.bit == with_bit(0, pcr_index),
{
    let digest = openssl::sha::sha1(data);
    let mut commands: Vec<ToolCommand> = Vec::new();
    commands.push(strict(pcrreset_command(pcr_index), String::new()));
    commands.push(strict(extend_command(pcr_index, digest.as_slice()), String::new()));
    assert(steps_of(commands@) =~= extension_steps(pcr_index as nat, data@));
    let bit: u32 = 1u32 << pcr_index;
    assert(bit == 0u32 | (1u32 << pcr_index)) by (bit_vector)
        requires
            bit == 1u32 << pcr_index,
    ;
    Extension { commands, bit }
}

/// Adds the bit that an extension gave to the mask that is quoted.
fn fold_bit(mask: u32, bit: u32) -> (out: u32)
    requires
        bit == with_bit(0, TPM_DATA_PCR),
    ensures
        out == with_bit(mask, TPM_DATA_PCR),
{
    assert(mask | (0u32 | (1u32 << 16u32)) == mask | (1u32 << 16u32)) by (bit_vector);
    mask | bit
}

/// Plans a plain quote over `pcrmask` for the verifier's `nonce`, with
/// `data` bound into it unless `data` is empty. The tool writes the raw
/// quote to `quote_path`.
pub fn create_quote(
    metadata: &TpmMetadata,
    nonce: String,
    data: String,
    pcrmask: String,
    quote_path: String,
) -> (planned: Result<QuotePlan, QuoteError>)
    ensures
        match planned {
            Ok(plan) => {
                &&& plan.kind == QuoteKind::Plain
                &&& all_strict(plan.commands@)
                &&& plain_steps(*metadata, nonce@, data@, pcrmask@, quote_path@) == Ok::<
                    Seq<Step>,
                    QuoteError,
                >(steps_of(plan.commands@))
            },
            Err(e) => plain_steps(*metadata, nonce@, data@, pcrmask@, quote_path@) == Err::<
                Seq<Step>,
                QuoteError,
            >(e),
        },
{
    let (key_handle, aik_password) = match (&metadata.aik_handle, &metadata.aik_pw) {
        (Some(handle), Some(password)) => (handle, password),
        _ => {
            return Err(QuoteError::MissingMetadata);
        },
    };
    let mut mask = mask_or_default(pcrmask);
    let mut commands: Vec<ToolCommand> = Vec::new();
    if !data.as_str().is_empty() {
        let quoted = match parse_mask(mask.as_str()) {
            Ok(quoted) => quoted,
            Err(e) => {
                return Err(QuoteError::InvalidMask(e));
            },
        };
        let extension = extend_measurement(TPM_DATA_PCR, data.as_str().as_bytes());
        mask = format_mask(fold_bit(quoted, extension.bit));
        commands = extension.commands;
    }
    let ghost before = commands@;
    let line = tpmquote_command(
        key_handle.as_str(),
        aik_password.as_str(),
        mask.as_str(),
        nonce.as_str(),
        quote_path.as_str(),
    );
    commands.push(strict(line, quote_path));
    proof {
        let expected = plain_steps(*metadata, nonce@, data@, pcrmask@, quote_path@);
        assert(steps_of(commands@) =~= steps_of(before).push(
            (commands@.last().line@, commands@.last().output_path@),
        ));
        assert(steps_of(commands@) =~= expected.unwrap());
    }
    Ok(QuotePlan { kind: QuoteKind::Plain, commands })
}

/// Plans a deep quote over the hardware TPM's `pcrmask` and the virtual
/// TPM's `vpcrmask` for the verifier's `nonce`, with `data` bound into the
/// virtual TPM unless `data` is empty. The tool writes the raw quote to
/// `quote_path`.
pub fn create_deep_quote(
    metadata: &TpmMetadata,
    nonce: String,
    data: String,
    pcrmask: String,
    vpcrmask: String,
    quote_path: String,
) -> (planned: Result<QuotePlan, QuoteError>)
    ensures
        match planned {
            Ok(plan) => {
                &&& plan.kind == QuoteKind::Deep
                &&& all_strict(plan.commands@)
                &&& deep_steps(*metadata, nonce@, data@, pcrmask@, vpcrmask@, quote_path@) == Ok::<
                    Seq<Step>,
                    QuoteError,
                >(steps_of(plan.commands@))
            },
            Err(e) => deep_steps(*metadata, nonce@, data@, pcrmask@, vpcrmask@, quote_path@)
                == Err::<Seq<Step>, QuoteError>(e),
        },
{
    let (key_handle, aik_password, owner_password) = match (
        &metadata.aik_handle,
        &metadata.aik_pw,
        &metadata.owner_pw,
    ) {
        (Some(handle), Some(password), Some(owner)) => (handle, password, owner),
        _ => {
            return Err(QuoteError::MissingMetadata);
        },
    };
    let mask = mask_or_default(pcrmask);
    let mut vmask = mask_or_default(vpcrmask);
    let mut commands: Vec<ToolCommand> = Vec::new();
    if !data.as_str().is_empty() {
        let quoted = match parse_mask(vmask.as_str()) {
            Ok(quoted) => quoted,
            Err(e) => {
                return Err(QuoteError::InvalidMask(e));
            },
        };
        let extension = extend_measurement(TPM_DATA_PCR, data.as_str().as_bytes());
        vmask = format_mask(fold_bit(quoted, extension.bit));
        commands = extension.commands;
    }
    let ghost before = commands@;
    let line = deepquote_command(
        key_handle.as_str(),
        mask.as_str(),
        vmask.as_str(),
        nonce.as_str(),
        owner_password.as_str(),
        aik_password.as_str(),
        quote_path.as_str(),
    );
    commands.push(strict(line, quote_path));
    proof {
        let expected = deep_steps(*metadata, nonce@, data@, pcrmask@, vpcrmask@, quote_path@);
        assert(steps_of(commands@) =~= steps_of(before).push(
            (commands@.last().line@, commands@.last().output_path@),
        ));
        assert(steps_of(commands@) =~= expected.unwrap());
    }
    Ok(QuotePlan { kind: QuoteKind::Deep, commands })
}

impl QuotePlan {
    /// Which step to run next, after `done` steps have been run and `failed`
    /// tells whether one of them failed: step `done`, or `None` where a step
    /// failed or all have been run. No step is run again or out of order.
    pub fn next_step(&self, done: usize, failed: bool) -> (next: Option<usize>)
        ensures
            next == (if failed || done >= self.commands@.len() {
                None
            } else {
                Some(done)
            }),
    {
        if failed || done >= self.commands.len() {
            None
        } else {
            Some(done)
        }
    }

    /// The quote as it is handed on: the tag of the plan's kind, then the
    /// raw quote compressed and written in base64.
    pub fn encode(&self, raw: String) -> (text: String)
        ensures
            text@ == wire_text(self.kind, encode_utf8(raw@)),
    {
        let encoded = base64_zlib_encode(raw);
        tagged(self.kind, encoded.as_str())
    }
}

/// The default mask is PCR 0 alone.
pub proof fn lemma_default_mask()
    ensures
        mask_value(EMPTYMASK@) == Ok::<u32, MaskError>(1),
        forall|mask: Seq<char>| mask.len() == 0 ==> effective_mask(mask) == EMPTYMASK@,
{
    reveal_strlit("1");
    let text = EMPTYMASK@;
    assert(text.len() == 1 && text[0] == '1');
    assert(text.drop_last() =~= Seq::<char>::empty());
    assert(numeral_value(text.drop_last(), 10) == 0);
    assert(digit_value('1', 10) == Some(1nat));
}

/// A mask that the data PCR has been added to is a mask again, and has the
/// bit of the data PCR.
pub proof fn lemma_bound_mask_has_data_bit(mask: Seq<char>)
    requires
        mask_value(mask) is Ok,
    ensures
        mask_text_with_bit(mask, TPM_DATA_PCR) is Ok,
        mask_value(mask_text_with_bit(mask, TPM_DATA_PCR).unwrap()) is Ok,
        bit_is_set(
            mask_value(mask_text_with_bit(mask, TPM_DATA_PCR).unwrap()).unwrap(),
            TPM_DATA_PCR as nat,
        ),
{
    let value = mask_value(mask).unwrap();
    lemma_mask_text_round_trip(with_bit(value, TPM_DATA_PCR));
    lemma_with_bit_sets_only_that_bit(value, TPM_DATA_PCR, TPM_DATA_PCR as nat);
}

/// With data to bind, a plain quote is the last of three steps: the data PCR
/// is reset and extended before it, and the mask quoted has that PCR's bit.
pub proof fn lemma_data_is_bound_before_quote(
    metadata: TpmMetadata,
    nonce: Seq<char>,
    data: Seq<char>,
    mask: Seq<char>,
    path: Seq<char>,
)
    requires
        data.len() > 0,
        plain_steps(metadata, nonce, data, mask, path) is Ok,
    ensures
        ({
            let steps = plain_steps(metadata, nonce, data, mask, path).unwrap();
            let bound = mask_text_with_bit(effective_mask(mask), TPM_DATA_PCR);
            &&& steps.len() == 3
            &&& steps[0].0 == reset_line(TPM_DATA_PCR as nat)
            &&& steps[1].0 == extend_line(
                TPM_DATA_PCR as nat,
                hex_of_bytes(sha1_digest(encode_utf8(data))),
            )
            &&& bound is Ok
            &&& steps[2].0 == tpmquote_line(
                metadata.aik_handle.unwrap()@,
                metadata.aik_pw.unwrap()@,
                bound.unwrap(),
                nonce,
                path,
            )
            &&& mask_value(bound.unwrap()) is Ok
            &&& bit_is_set(mask_value(bound.unwrap()).unwrap(), TPM_DATA_PCR as nat)
        }),
{
    lemma_bound_mask_has_data_bit(effective_mask(mask));
}

/// With data to bind, a deep quote is the last of three steps: the data PCR
/// is reset and extended before it, the virtual mask quoted has that PCR's
/// bit, and the hardware mask is the caller's.
pub proof fn lemma_data_is_bound_before_deep_quote(
    metadata: TpmMetadata,
    nonce: Seq<char>,
    data: Seq<char>,
    mask: Seq<char>,
    vmask: Seq<char>,
    path: Seq<char>,
)
    requires
        data.len() > 0,
        deep_steps(metadata, nonce, data, mask, vmask, path) is Ok,
    ensures
        ({
            let steps = deep_steps(metadata, nonce, data, mask, vmask, path).unwrap();
            let bound = mask_text_with_bit(effective_mask(vmask), TPM_DATA_PCR);
            &&& steps.len() == 3
            &&& steps[0].0 == reset_line(TPM_DATA_PCR as nat)
            &&& steps[1].0 == extend_line(
                TPM_DATA_PCR as nat,
                hex_of_bytes(sha1_digest(encode_utf8(data))),
            )
            &&& bound is Ok
            &&& steps[2].0 == deepquote_line(
                metadata.aik_handle.unwrap()@,
                effective_mask(mask),
                bound.unwrap(),
                nonce,
                metadata.owner_pw.unwrap()@,
                metadata.aik_pw.unwrap()@,
                path,
            )
            &&& mask_value(bound.unwrap()) is Ok
            &&& bit_is_set(mask_value(bound.unwrap()).unwrap(), TPM_DATA_PCR as nat)
        }),
{
    lemma_bound_mask_has_data_bit(effective_mask(vmask));
}

/// Without data, a plain quote is a single step, and with no mask named it
/// quotes the default mask.
pub proof fn lemma_plain_quote_without_data(
    metadata: TpmMetadata,
    nonce: Seq<char>,
    mask: Seq<char>,
    path: Seq<char>,
)
    requires
        metadata.aik_handle is Some,
        metadata.aik_pw is Some,
    ensures
        plain_steps(metadata, nonce, Seq::empty(), mask, path) == Ok::<Seq<Step>, QuoteError>(
            seq![
                (
                    tpmquote_line(
                        metadata.aik_handle.unwrap()@,
                        metadata.aik_pw.unwrap()@,
                        if mask.len() == 0 {
                            EMPTYMASK@
                        } else {
                            mask
                        },
                        nonce,
                        path,
                    ),
                    path,
                ),
            ],
        ),
{
}

} // verus!
