use std::io::Read;
use tpm_quote::encode::QuoteKind;
use tpm_quote::mask::{check_mask, MaskError};
use tpm_quote::metadata::{
    get_tpm_manufacturer, get_tpm_metadata, is_virtual, is_vtpm, TpmMetadata,
};
use tpm_quote::quote::{
    create_deep_quote, create_quote, deepquote_command, extend_command, extend_measurement,
    mask_or_default, pcrreset_command, tpmquote_command, QuoteError, QuotePlan, ToolCommand,
    TPM_DATA_PCR,
};

const BLOB_SHA1: &str = "b489d68c0fa4127736b96985176df8be6f22457c";

fn metadata() -> TpmMetadata {
    TpmMetadata {
        aik_pw: Some("aikpw".to_string()),
        ek: Some("ek-key".to_string()),
        owner_pw: Some("ownerpw".to_string()),
        aik_handle: Some("0x3000000".to_string()),
        aikmod: None,
        aikpriv: None,
        aik: Some("aik-key".to_string()),
    }
}

fn strict(line: &str, output_path: &str) -> ToolCommand {
    ToolCommand {
        line: line.to_string(),
        except_code: 0,
        raise_on_error: true,
        output_path: output_path.to_string(),
    }
}

fn plain(nonce: &str, data: &str, mask: &str) -> Result<QuotePlan, QuoteError> {
    create_quote(
        &metadata(),
        nonce.to_string(),
        data.to_string(),
        mask.to_string(),
        "/tmp/quote".to_string(),
    )
}

fn deep(nonce: &str, data: &str, mask: &str, vmask: &str) -> Result<QuotePlan, QuoteError> {
    create_deep_quote(
        &metadata(),
        nonce.to_string(),
        data.to_string(),
        mask.to_string(),
        vmask.to_string(),
        "/tmp/quote".to_string(),
    )
}

#[test]
fn test_is_vtpm() {
    let return_value = is_vtpm();
    assert_eq!(return_value.unwrap(), true);
}

#[test]
fn the_manufacturer_of_a_virtual_tpm() {
    assert_eq!(get_tpm_manufacturer(), Some("ETHZ".to_string()));
    assert!(is_virtual(&"ETHZ".to_string()));
    assert!(!is_virtual(&"IBM".to_string()));
    assert!(!is_virtual(&String::new()));
}

#[test]
fn metadata_is_looked_up_by_name() {
    let m = metadata();
    assert_eq!(get_tpm_metadata(&m, "aik_handle".to_string()), Some("0x3000000".to_string()));
    assert_eq!(get_tpm_metadata(&m, "aik_pw".to_string()), Some("aikpw".to_string()));
    assert_eq!(get_tpm_metadata(&m, "owner_pw".to_string()), Some("ownerpw".to_string()));
    assert_eq!(get_tpm_metadata(&m, "ek".to_string()), Some("ek-key".to_string()));
    assert_eq!(get_tpm_metadata(&m, "aik".to_string()), Some("aik-key".to_string()));
    assert_eq!(get_tpm_metadata(&m, "aikmod".to_string()), None);
    assert_eq!(get_tpm_metadata(&m, "aikpriv".to_string()), None);
    assert_eq!(get_tpm_metadata(&m, "nothing".to_string()), None);
    assert_eq!(get_tpm_metadata(&m, String::new()), None);
}

#[test]
fn command_lines_are_put_together() {
    assert_eq!(pcrreset_command(16), "pcrreset -ix 16");
    assert_eq!(pcrreset_command(0), "pcrreset -ix 0");
    assert_eq!(extend_command(16, &[0x00, 0x0f, 0xa5, 0xff]), "extend -ix 16 -ic 000fa5ff");
    assert_eq!(extend_command(7, &[]), "extend -ix 7 -ic ");
    assert_eq!(
        tpmquote_command("H", "P", "M", "N", "/q"),
        "tpmquote -hk H -pwdk P -bm M -nonce N -noverify -oq /q"
    );
    assert_eq!(
        deepquote_command("H", "M", "V", "N", "O", "P", "/q"),
        "deepquote -vk H -hm M -vm V -nonce N -pwdo O -pwdk P -oq /q"
    );
}

#[test]
fn an_empty_mask_gives_way_to_the_default() {
    assert_eq!(mask_or_default(String::new()), "1");
    assert_eq!(mask_or_default("0x400".to_string()), "0x400");
    assert_eq!(mask_or_default("junk".to_string()), "junk");
}

#[test]
fn a_measurement_is_reset_then_extended() {
    let extension = extend_measurement(16, b"measurement-blob");
    assert_eq!(
        extension.commands,
        vec![
            strict("pcrreset -ix 16", ""),
            strict(&format!("extend -ix 16 -ic {}", BLOB_SHA1), ""),
        ]
    );
    assert_eq!(extension.bit, 1 << 16);
    assert_eq!(extend_measurement(0, b"").bit, 1);
    assert_eq!(extend_measurement(31, b"").bit, 0x8000_0000);
    assert_eq!(
        extend_measurement(3, b"").commands[1].line,
        "extend -ix 3 -ic da39a3ee5e6b4b0d3255bfef95601890afd80709"
    );
    assert_eq!(
        extend_measurement(3, b"abc").commands[1].line,
        "extend -ix 3 -ic a9993e364706816aba3e25717850c26c9cd0d89d"
    );
}

#[test]
fn a_quote_without_data_is_a_single_tpmquote() {
    let plan = plain("abc123", "", "").unwrap();
    assert_eq!(plan.kind, QuoteKind::Plain);
    assert_eq!(
        plan.commands,
        vec![strict(
            "tpmquote -hk 0x3000000 -pwdk aikpw -bm 1 -nonce abc123 -noverify -oq /tmp/quote",
            "/tmp/quote"
        )]
    );
    assert!(plan.encode("raw".to_string()).starts_with('r'));
}

#[test]
fn a_quote_with_data_binds_the_data_first() {
    let plan = plain("abc123", "measurement-blob", "").unwrap();
    assert_eq!(plan.kind, QuoteKind::Plain);
    assert_eq!(
        plan.commands,
        vec![
            strict("pcrreset -ix 16", ""),
            strict(&format!("extend -ix 16 -ic {}", BLOB_SHA1), ""),
            strict(
                "tpmquote -hk 0x3000000 -pwdk aikpw -bm 0x10001 -nonce abc123 -noverify -oq /tmp/quote",
                "/tmp/quote"
            ),
        ]
    );
    assert!(check_mask("0x10001".to_string(), TPM_DATA_PCR as usize));
    assert!(plan.encode("raw".to_string()).starts_with('r'));
}

#[test]
fn a_quote_keeps_the_callers_mask() {
    let plan = plain("n", "", "0x400").unwrap();
    assert_eq!(
        plan.commands[0].line,
        "tpmquote -hk 0x3000000 -pwdk aikpw -bm 0x400 -nonce n -noverify -oq /tmp/quote"
    );
    let plan = plain("n", "", "not a mask").unwrap();
    assert_eq!(
        plan.commands[0].line,
        "tpmquote -hk 0x3000000 -pwdk aikpw -bm not a mask -nonce n -noverify -oq /tmp/quote"
    );
}

#[test]
fn a_quote_with_data_adds_the_data_pcr_to_the_callers_mask() {
    let plan = plain("n", "d", "1025").unwrap();
    assert_eq!(plan.commands.len(), 3);
    assert_eq!(
        plan.commands[2].line,
        "tpmquote -hk 0x3000000 -pwdk aikpw -bm 0x10401 -nonce n -noverify -oq /tmp/quote"
    );
    let again = plain("n", "d", "0x10401").unwrap();
    assert_eq!(again.commands[2].line, plan.commands[2].line);
}

#[test]
fn a_quote_with_data_needs_a_mask_that_is_one() {
    assert_eq!(plain("n", "d", "junk"), Err(QuoteError::InvalidMask(MaskError::InvalidDigit)));
    assert_eq!(plain("n", "d", "0x"), Err(QuoteError::InvalidMask(MaskError::NoDigits)));
    assert_eq!(
        plain("n", "d", "99999999999"),
        Err(QuoteError::InvalidMask(MaskError::TooLarge))
    );
}

#[test]
fn a_quote_needs_the_handle_and_the_password_of_the_aik() {
    let mut m = metadata();
    m.aik_handle = None;
    let asked = create_quote(&m, "n".into(), "".into(), "".into(), "/q".into());
    assert_eq!(asked, Err(QuoteError::MissingMetadata));
    let mut m = metadata();
    m.aik_pw = None;
    let asked = create_quote(&m, "n".into(), "d".into(), "junk".into(), "/q".into());
    assert_eq!(asked, Err(QuoteError::MissingMetadata));
    let mut m = metadata();
    m.owner_pw = None;
    assert!(create_quote(&m, "n".into(), "".into(), "".into(), "/q".into()).is_ok());
}

#[test]
fn a_deep_quote_without_data_is_a_single_deepquote() {
    let plan = deep("abc123", "", "", "").unwrap();
    assert_eq!(plan.kind, QuoteKind::Deep);
    assert_eq!(
        plan.commands,
        vec![strict(
            "deepquote -vk 0x3000000 -hm 1 -vm 1 -nonce abc123 -pwdo ownerpw -pwdk aikpw -oq /tmp/quote",
            "/tmp/quote"
        )]
    );
    assert!(plan.encode("raw".to_string()).starts_with('d'));
}

#[test]
fn a_deep_quote_with_data_binds_it_into_the_virtual_mask() {
    let plan = deep("abc123", "measurement-blob", "0x400", "").unwrap();
    assert_eq!(
        plan.commands,
        vec![
            strict("pcrreset -ix 16", ""),
            strict(&format!("extend -ix 16 -ic {}", BLOB_SHA1), ""),
            strict(
                "deepquote -vk 0x3000000 -hm 0x400 -vm 0x10001 -nonce abc123 -pwdo ownerpw -pwdk aikpw -oq /tmp/quote",
                "/tmp/quote"
            ),
        ]
    );
}

#[test]
fn a_deep_quote_reads_only_the_virtual_mask() {
    assert!(deep("n", "d", "junk", "1").is_ok());
    assert_eq!(deep("n", "d", "1", "junk"), Err(QuoteError::InvalidMask(MaskError::InvalidDigit)));
    assert!(deep("n", "", "junk", "junk").is_ok());
}

#[test]
fn a_deep_quote_needs_the_owner_password_too() {
    for missing in 0..3 {
        let mut m = metadata();
        match missing {
            0 => m.aik_handle = None,
            1 => m.aik_pw = None,
            _ => m.owner_pw = None,
        }
        let asked =
            create_deep_quote(&m, "n".into(), "".into(), "".into(), "".into(), "/q".into());
        assert_eq!(asked, Err(QuoteError::MissingMetadata));
    }
}

#[test]
fn a_plan_encodes_the_raw_quote_under_its_tag() {
    let plan = plain("n", "", "").unwrap();
    let wire = plan.encode("signed quote".to_string());
    assert_eq!(wire, tpm_quote::encode::encode(QuoteKind::Plain, b"signed quote"));
    let plan = deep("n", "", "", "").unwrap();
    assert_eq!(plan.encode(String::new()), tpm_quote::encode::encode(QuoteKind::Deep, b""));
}

#[test]
fn the_steps_of_a_plan_are_run_in_order_until_one_fails() {
    let plan = plain("n", "d", "").unwrap();
    assert_eq!(plan.commands.len(), 3);
    assert_eq!(plan.next_step(0, false), Some(0));
    assert_eq!(plan.next_step(1, false), Some(1));
    assert_eq!(plan.next_step(2, false), Some(2));
    assert_eq!(plan.next_step(3, false), None);
    assert_eq!(plan.next_step(usize::MAX, false), None);
    assert_eq!(plan.next_step(0, true), None);
    assert_eq!(plan.next_step(1, true), None);
    assert_eq!(plan.next_step(3, true), None);
    let single = plain("n", "", "").unwrap();
    assert_eq!(single.next_step(0, false), Some(0));
    assert_eq!(single.next_step(1, false), None);
}

#[test]
fn a_plan_encodes_what_decodes_to_the_raw_quote() {
    for (plan, tag) in [(plain("n", "", "").unwrap(), 'r'), (deep("n", "", "", "").unwrap(), 'd')] {
        for raw in ["", "q", "a signed quote, a signed quote, a signed quote"] {
            let wire = plan.encode(raw.to_string());
            assert_eq!(wire.chars().next(), Some(tag));
            let payload = &wire[1..];
            assert_eq!(payload.len() % 4, 0);
            assert!(payload.len() >= 12);
            assert_ne!(payload, "Encode Fail!");
            assert!(payload.chars().all(|c| c.is_ascii_alphanumeric() || "+/=".contains(c)));
            let stream = base64::decode(payload).unwrap();
            let mut back = String::new();
            flate2::read::ZlibDecoder::new(&stream[..]).read_to_string(&mut back).unwrap();
            assert_eq!(back, raw);
        }
    }
}
