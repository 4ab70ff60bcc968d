use rns_proxy::address::format_address;
use rns_proxy::identity::{server_keys, signing_half};

#[test]
fn signing_half_is_the_second_half() {
    let mut key = [0u8; 64];
    for (i, b) in key.iter_mut().enumerate() {
        *b = i as u8;
    }
    let half = signing_half(&key);
    assert_eq!(half[0], 32);
    assert_eq!(half[31], 63);
}

#[test]
fn server_keys_use_the_rns_destination_hash() {
    let id_hash = [0x11u8; 16];
    let prv = [1u8; 64];
    let mut pubk = [2u8; 64];
    pubk[40] = 9;
    let keys = server_keys(&id_hash, &prv, &pubk);
    let expected = rns_net::Destination::single_in(
        "rns_socks",
        &["proxy"],
        rns_net::IdentityHash(id_hash),
    )
    .hash
    .0;
    assert_eq!(keys.dest_hash, expected);
    assert_ne!(keys.dest_hash, id_hash);
    assert_eq!(keys.sig_prv, [1u8; 32]);
    assert_eq!(keys.sig_pub[8], 9);
    assert_eq!(format_address(&keys.dest_hash).len(), 32);
}
