use base64::Engine;
use gateway_kit::model::{AppConfig, Secrets};
use gateway_kit::render::render_wg_quick;
use gateway_kit::wg::{parse_wg_quick, parse_wireguard_blob};

const SAMPLE: &str = "[Interface]
PrivateKey = aaaaaaaaaaaaaaaaaaaaaaaaaaaaaaaaaaaaaaaaaaa=
Address = 10.66.0.2/32
ListenPort = 51820

[Peer]
PublicKey = bbbbbbbbbbbbbbbbbbbbbbbbbbbbbbbbbbbbbbbbbbb=
PresharedKey = ccccccccccccccccccccccccccccccccccccccccccc=
Endpoint = vps.example:51820
AllowedIPs = 0.0.0.0/0
";

#[test]
fn parses_plain_wg_quick() {
    let got = parse_wg_quick(SAMPLE).unwrap();
    assert_eq!(got.address.as_deref(), Some("10.66.0.2/32"));
    assert_eq!(got.listen_port, Some(51820));
    assert_eq!(got.peer_endpoint.as_deref(), Some("vps.example:51820"));
    assert!(got.private_key.is_some());
    assert!(got.peer_public_key.is_some());
}

#[test]
fn parses_standard_base64() {
    let blob = base64::engine::general_purpose::STANDARD.encode(SAMPLE.as_bytes());
    let got = parse_wireguard_blob(&blob).unwrap();
    assert_eq!(got.address.as_deref(), Some("10.66.0.2/32"));
    assert_eq!(got.peer_allowed_ips.as_deref(), Some("0.0.0.0/0"));
}

#[test]
fn rejects_garbage() {
    assert!(parse_wireguard_blob("not-config").is_err());
}

#[test]
fn parses_url_safe_base64_without_padding() {
    let blob = base64::engine::general_purpose::URL_SAFE_NO_PAD.encode(SAMPLE.as_bytes());
    let got = parse_wireguard_blob(&blob).unwrap();
    assert_eq!(got.peer_public_key.as_deref(), Some("bbbbbbbbbbbbbbbbbbbbbbbbbbbbbbbbbbbbbbbbbbb="));
    assert_eq!(got.preshared_key.as_deref(), Some("ccccccccccccccccccccccccccccccccccccccccccc="));
}

#[test]
fn base64_with_line_breaks_is_compacted() {
    let blob = base64::engine::general_purpose::STANDARD.encode(SAMPLE.as_bytes());
    let wrapped = format!("  {}\n{}  ", &blob[..20], &blob[20..]);
    let got = parse_wireguard_blob(&wrapped).unwrap();
    assert_eq!(got.listen_port, Some(51820));
}

#[test]
fn empty_paste_is_refused_with_its_message() {
    let err = parse_wireguard_blob("   \n ").unwrap_err();
    assert_eq!(err.to_message(), "empty WireGuard paste");
}

#[test]
fn missing_interface_section_is_refused() {
    let err = parse_wg_quick("[Peer]\nEndpoint = x:1\n").unwrap_err();
    assert_eq!(err.to_message(), "not a wg-quick config ([Interface] missing)");
}

#[test]
fn keys_and_sections_are_case_insensitive_and_comments_skipped() {
    let got = parse_wg_quick("# c\n[INTERFACE]\n  address =  10.0.0.2/32 \nlistenport = +7\n[peer]\nENDPOINT=h:1\nnoise\n").unwrap();
    assert_eq!(got.address.as_deref(), Some("10.0.0.2/32"));
    assert_eq!(got.listen_port, Some(7));
    assert_eq!(got.peer_endpoint.as_deref(), Some("h:1"));
}

#[test]
fn out_of_range_listen_port_is_dropped() {
    let got = parse_wg_quick("[Interface]\nListenPort = 70000\n").unwrap();
    assert_eq!(got.listen_port, None);
}

#[test]
fn rendered_tunnel_file_reads_back() {
    let mut cfg = AppConfig::default();
    cfg.wireguard.address = "10.66.0.2/32".to_owned();
    cfg.wireguard.listen_port = 51821;
    cfg.wireguard.peer_endpoint = "vps.example:51820".to_owned();
    cfg.wireguard.peer_allowed_ips = "0.0.0.0/0, ::/0".to_owned();
    let secrets = Secrets {
        wireguard_private_key: Some("priv=".to_owned()),
        wireguard_peer_public_key: Some("pub=".to_owned()),
        wireguard_preshared_key: Some("psk=".to_owned()),
        ..Secrets::default()
    };
    let got = parse_wireguard_blob(&render_wg_quick(&cfg, &secrets)).unwrap();
    assert_eq!(got.address.as_deref(), Some("10.66.0.2/32"));
    assert_eq!(got.listen_port, Some(51821));
    assert_eq!(got.peer_endpoint.as_deref(), Some("vps.example:51820"));
    assert_eq!(got.peer_allowed_ips.as_deref(), Some("0.0.0.0/0, ::/0"));
    assert_eq!(got.private_key.as_deref(), Some("priv="));
    assert_eq!(got.peer_public_key.as_deref(), Some("pub="));
    assert_eq!(got.preshared_key.as_deref(), Some("psk="));
}

#[test]
fn rendered_tunnel_file_without_keys_reads_back_empty_keys() {
    let cfg = AppConfig::default();
    let secrets = Secrets {
        wireguard_private_key: None,
        wireguard_peer_public_key: None,
        wireguard_preshared_key: Some(String::new()),
        ..Secrets::default()
    };
    let got = parse_wireguard_blob(&render_wg_quick(&cfg, &secrets)).unwrap();
    assert_eq!(got.private_key.as_deref(), Some(""));
    assert_eq!(got.peer_public_key.as_deref(), Some(""));
    assert_eq!(got.preshared_key, None);
    assert_eq!(got.listen_port, Some(51820));
    assert_eq!(got.address.as_deref(), Some(""));
}
