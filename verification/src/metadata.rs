//! What the agent knows of its TPM: the metadata kept from the TPM's
//! initialisation, and whether the TPM is a virtual one.

use vstd::prelude::*;

verus! {

/// Whether the TPM is taken to be virtual without asking it.
pub const STUB_VTPM: bool = false;

/// The manufacturer that a virtual TPM names.
pub const VTPM_MANUFACTURER: &'static str = "ETHZ";

/// The metadata of the TPM, as loaded once from where the agent keeps it. A
/// field that the store lacks is `None`.
#[derive(Debug, PartialEq, Eq)]
pub struct TpmMetadata {
    /// The password of the AIK.
    pub aik_pw: Option<String>,
    /// The endorsement key.
    pub ek: Option<String>,
    /// The owner password.
    pub owner_pw: Option<String>,
    /// The handle of the AIK in the TPM.
    pub aik_handle: Option<String>,
    /// The modulus of the AIK.
    pub aikmod: Option<String>,
    /// The private part of the AIK, wrapped.
    pub aikpriv: Option<String>,
    /// The public part of the AIK.
    pub aik: Option<String>,
}

/// The field of the metadata that `key` names, if it names one.
pub open spec fn field_of(metadata: TpmMetadata, key: Seq<char>) -> Option<String> {
    if key == "aik_pw"@ {
        metadata.aik_pw
    } else if key == "ek"@ {
        metadata.ek
    } else if key == "owner_pw"@ {
        metadata.owner_pw
    } else if key == "aik_handle"@ {
        metadata.aik_handle
    } else if key == "aikmod"@ {
        metadata.aikmod
    } else if key == "aikpriv"@ {
        metadata.aikpriv
    } else if key == "aik"@ {
        metadata.aik
    } else {
        None
    }
}

/// A copy of a field.
fn copy_of(field: &Option<String>) -> (copy: Option<String>)
    ensures
        copy == *field,
{
    match field {
        Some(text) => Some(text.clone()),
        None => None,
    }
}

/// The field of the metadata named `content_key`: `None` where the store
/// lacks it or there is no field of that name.
pub fn get_tpm_metadata(metadata: &TpmMetadata, content_key: String) -> (value: Option<String>)
    ensures
        value == field_of(*metadata, content_key@),
{
    if content_key == "aik_pw".to_owned() {
        copy_of(&metadata.aik_pw)
    } else if content_key == "ek".to_owned() {
        copy_of(&metadata.ek)
    } else if content_key == "owner_pw".to_owned() {
        copy_of(&metadata.owner_pw)
    } else if content_key == "aik_handle".to_owned() {
        copy_of(&metadata.aik_handle)
    } else if content_key == "aikmod".to_owned() {
        copy_of(&metadata.aikmod)
    } else if content_key == "aikpriv".to_owned() {
        copy_of(&metadata.aikpriv)
    } else if content_key == "aik".to_owned() {
        copy_of(&metadata.aik)
    } else {
        None
    }
}

/// The manufacturer of the TPM.
pub fn get_tpm_manufacturer() -> (manufacturer: Option<String>)
    ensures
        manufacturer matches Some(name) && name@ == VTPM_MANUFACTURER@,
{
    let placeholder = VTPM_MANUFACTURER.to_owned();
    Some(placeholder)
}

/// Whether a TPM of this manufacturer is a virtual one.
pub fn is_virtual(manufacturer: &String) -> (virtual_tpm: bool)
    ensures
        virtual_tpm == (manufacturer@ == VTPM_MANUFACTURER@),
{
    *manufacturer == VTPM_MANUFACTURER.to_owned()
}

/// Whether the TPM is a virtual one.
pub fn is_vtpm() -> (answer: Option<bool>)
    ensures
        answer == Some(true),
{
    if STUB_VTPM {
        Some(true)
    } else {
        match get_tpm_manufacturer() {
            Some(manufacturer) => Some(is_virtual(&manufacturer)),
            None => None,
        }
    }
}

} // verus!
