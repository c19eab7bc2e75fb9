use yanami::infohash::{derive_back, magnet_info_hash, magnet_xt_value, torrent_info_hash};

#[test]
fn magnet_base32_hash() {
    let h = magnet_info_hash("magnet:?xt=urn:btih:QD7JCARCSCDDPOXKNLPLITPET4GFCJDU").unwrap();
    assert_eq!(h, "80fe910222908637baea6adeb44de49f0c512474".to_string());
}

#[test]
fn magnet_hex_hash_round_trip() {
    let h = "80fe910222908637baea6adeb44de49f0c512474";
    let link = derive_back(h);
    assert_eq!(link, "magnet:?xt=urn:btih:80fe910222908637baea6adeb44de49f0c512474");
    assert_eq!(magnet_info_hash(&link).unwrap(), h.to_string());
}

#[test]
fn magnet_hex_hash_is_lowercased() {
    let link = "magnet:?xt=urn:btih:80FE910222908637BAEA6ADEB44DE49F0C512474";
    assert_eq!(
        magnet_info_hash(link).unwrap(),
        "80fe910222908637baea6adeb44de49f0c512474".to_string()
    );
}

#[test]
fn magnet_xt_among_other_params() {
    let link = "magnet:?dn=foo&xt=urn:btih:80fe910222908637baea6adeb44de49f0c512474&tr=x";
    assert_eq!(
        magnet_xt_value(link).unwrap(),
        "urn:btih:80fe910222908637baea6adeb44de49f0c512474".to_string()
    );
}

#[test]
fn not_a_magnet() {
    assert!(magnet_info_hash("https://example.org/a.torrent").is_none());
    assert!(magnet_info_hash("magnet:?dn=foo").is_none());
    assert!(magnet_info_hash("magnet:?xt=urn:sha1:abc").is_none());
}

#[test]
fn torrent_body_hash() {
    // a minimal bencoded torrent: the info dictionary {"name": "foo"}
    let body = b"d4:infod4:name3:fooee";
    let h = torrent_info_hash(body).unwrap();
    assert_eq!(h, "4e42b255e374e4071aa55ab6e08c6418055827fb".to_string());
    assert!(torrent_info_hash(b"not bencode").is_none());
}
