use coconut_dkg::explorer::{ExplorerApiState, MixNode, MixNodeBond};
use coconut_dkg::recipient::{PublicKeyBytes, Recipient, RecipientFormattingError, RECIPIENT_LEN};

fn key(seed: u8) -> PublicKeyBytes {
    PublicKeyBytes::from_bytes(vec![seed; 32])
}

#[test]
fn string_conversion_works() {
    let recipient = Recipient::new(key(1), key(2), key(3));

    let str_recipient = recipient.to_address_string();
    let recovered_recipient = Recipient::try_from_string(str_recipient.as_str()).unwrap();

    // as long as byte representation of internal keys are identical, it's all fine
    assert_eq!(
        recipient.identity().to_bytes(),
        recovered_recipient.identity().to_bytes()
    );
    assert_eq!(
        recipient.encryption_key().to_bytes(),
        recovered_recipient.encryption_key().to_bytes()
    );
    assert_eq!(
        recipient.gateway().to_bytes(),
        recovered_recipient.gateway().to_bytes()
    );
}

#[test]
fn bytes_conversion_works() {
    let recipient = Recipient::new(key(4), key(5), key(6));

    let bytes_recipient = recipient.clone().into_bytes();
    assert_eq!(bytes_recipient.len(), RECIPIENT_LEN);
    let recovered_recipient = Recipient::try_from_bytes(bytes_recipient.as_slice()).unwrap();

    // as long as byte representation of internal keys are identical, it's all fine
    assert_eq!(
        recipient.identity().to_bytes(),
        recovered_recipient.identity().to_bytes()
    );
    assert_eq!(
        recipient.encryption_key().to_bytes(),
        recovered_recipient.encryption_key().to_bytes()
    );
    assert_eq!(
        recipient.gateway().to_bytes(),
        recovered_recipient.gateway().to_bytes()
    );
}

#[test]
fn malformed_addresses_are_rejected() {
    assert_eq!(
        Recipient::try_from_string("no-separators-here").unwrap_err(),
        RecipientFormattingError::MalformedRecipientError
    );
    assert_eq!(
        Recipient::try_from_string("a.b@c@d").unwrap_err(),
        RecipientFormattingError::MalformedRecipientError
    );
    assert_eq!(
        Recipient::try_from_string("nodothere@gateway").unwrap_err(),
        RecipientFormattingError::MalformedRecipientError
    );
    // '0' is not a base58 character, so the identity part fails first
    assert_eq!(
        Recipient::try_from_string("0bad.key@gateway").unwrap_err(),
        RecipientFormattingError::MalformedIdentityError
    );
    // a syntactically fine but too-short identity part
    let gw = Recipient::new(key(1), key(2), key(3))
        .gateway()
        .to_base58_string();
    let enc = Recipient::new(key(1), key(2), key(3))
        .encryption_key()
        .to_base58_string();
    let addr = format!("abc.{}@{}", enc, gw);
    assert_eq!(
        Recipient::try_from_string(addr.as_str()).unwrap_err(),
        RecipientFormattingError::MalformedIdentityError
    );
    // a valid identity but an undecodable encryption key
    let id = Recipient::new(key(1), key(2), key(3))
        .identity()
        .to_base58_string();
    let addr = format!("{}.abc@{}", id, gw);
    assert_eq!(
        Recipient::try_from_string(addr.as_str()).unwrap_err(),
        RecipientFormattingError::MalformedEncryptionKeyError
    );
    // both client keys fine, gateway undecodable
    let addr = format!("{}.{}@abc", id, enc);
    assert_eq!(
        Recipient::try_from_string(addr.as_str()).unwrap_err(),
        RecipientFormattingError::MalformedGatewayError
    );
}

#[test]
fn mix_node_lookup_finds_by_identity_key() {
    let bond = |owner: &str, key: &str| MixNodeBond {
        owner: owner.to_owned(),
        mix_node: MixNode {
            identity_key: key.to_owned(),
            host: "1.1.1.1".to_owned(),
        },
    };
    let state = ExplorerApiState::new(vec![bond("alice", "k1"), bond("bob", "k2")]);
    let found = state.get_mix_node("k2").unwrap();
    assert_eq!(found.owner, "bob");
    assert!(state.get_mix_node("k3").is_none());
}
