use edge_gateway::config::tls::{FileTlsConfig, TlsConfig};
use edge_gateway::fallback::{add_parsed_anchors, add_trust_anchors};
use edge_gateway::tls::certificate::{
    certificate_pair_from, leaf_metadata_from, parse_certificate_pair, parse_leaf_metadata,
    LeafExtension, LeafName, LeafParts, PrivateKey, PrivateKeyKind,
};
use edge_gateway::tls::discovery::discover_pairs;
use edge_gateway::tls::resolver::{resolve, resolve_wildcard, wildcard_suffix};
use edge_gateway::tls::store::{CertificateIndex, CertificatePair};
use rustls::RootCertStore;

// Self-signed certificates of one key, and another key, in hexadecimal DER.

const FIRST: &str = "308201b130820158a00302010202146f5f21c5933e3378ce6b06eabae28e12fc27c324300a06082a8648ce3d\
    040302300f310d300b06035504030c04746573743020170d3236313131353232353131365a180f3231323631\
    3032323232353131365a300f310d300b06035504030c04746573743059301306072a8648ce3d020106082a86\
    48ce3d03010703420004e45662eeaa33c1a9323f0874304a28e9c355653533392ca427e3bd85374a11463026\
    ac9a81cd92bd202a344686d96d6032a36ca6364522d4d3de7a12f7bdc0f0a3818f30818c301d0603551d0e04\
    160414df6a3533cc98623f5b9814d8aeff2da532020cc9301f0603551d23041830168014df6a3533cc98623f\
    5b9814d8aeff2da532020cc9300f0603551d130101ff040530030101ff30390603551d1104323030820b4578\
    616d706c652e434f4d820e2a2e77696c642e6578616d706c65820b6578616d706c652e636f6d87047f000001\
    300a06082a8648ce3d04030203470030440220198ff7e63a50bec4e01bb4293c551eb52df368fbae943ee639\
    6065961afd2e6402205c207d34b2bacaf5ea8d9b6e31ae9bc7985318a6853951743adfc26e8fed1e92";

const SECOND: &str = "3082019030820135a003020102021455333020633845f99775ce2afb1a95169a5d7bab300a06082a8648ce3d\
    040302300f310d300b06035504030c04746573743020170d3236313131353232353131365a180f3231323631\
    3032323232353131365a300f310d300b06035504030c04746573743059301306072a8648ce3d020106082a86\
    48ce3d03010703420004e45662eeaa33c1a9323f0874304a28e9c355653533392ca427e3bd85374a11463026\
    ac9a81cd92bd202a344686d96d6032a36ca6364522d4d3de7a12f7bdc0f0a36d306b301d0603551d0e041604\
    14df6a3533cc98623f5b9814d8aeff2da532020cc9301f0603551d23041830168014df6a3533cc98623f5b98\
    14d8aeff2da532020cc9300f0603551d130101ff040530030101ff30180603551d110411300f820d6f746865\
    722e6578616d706c65300a06082a8648ce3d04030203490030460221009d752907db8f83cdea545bf422e243\
    05e1788de8ee9f6397496aaa99adefc5df022100b23527b3f1c13cbcacf104ee5218ca71e3d552d21a0a3f16\
    6fed739841ed77bb";

const THIRD: &str = "3082019c30820142a0030201020214213c886ba106b4b8069eee64e8883b93f181de5e300a06082a8648ce3d\
    040302300f310d300b06035504030c04746573743020170d3236313131353232353131365a180f3231323631\
    3032323232353131365a300f310d300b06035504030c04746573743059301306072a8648ce3d020106082a86\
    48ce3d03010703420004e45662eeaa33c1a9323f0874304a28e9c355653533392ca427e3bd85374a11463026\
    ac9a81cd92bd202a344686d96d6032a36ca6364522d4d3de7a12f7bdc0f0a37a3078301d0603551d0e041604\
    14df6a3533cc98623f5b9814d8aeff2da532020cc9301f0603551d23041830168014df6a3533cc98623f5b98\
    14d8aeff2da532020cc9300f0603551d130101ff040530030101ff30250603551d11041e301c820b6578616d\
    706c652e636f6d820d74686972642e6578616d706c65300a06082a8648ce3d0403020348003045022020c045\
    8887839de037c8489ab0071d7ae07063068498b2d25d18dfb3389e067b022100ef4a885059abaf10ab3e8658\
    32931d41ea5797ed390a853f010e1ab7c39b4341";

const FOURTH: &str = "3082019030820136a00302010202143b8209a925d337ef68946c57cfc147aa266fb734300a06082a8648ce3d\
    040302300f310d300b06035504030c04746573743020170d3236313131353232353131365a180f3231323631\
    3032323232353131365a300f310d300b06035504030c04746573743059301306072a8648ce3d020106082a86\
    48ce3d03010703420004e45662eeaa33c1a9323f0874304a28e9c355653533392ca427e3bd85374a11463026\
    ac9a81cd92bd202a344686d96d6032a36ca6364522d4d3de7a12f7bdc0f0a36e306c301d0603551d0e041604\
    14df6a3533cc98623f5b9814d8aeff2da532020cc9301f0603551d23041830168014df6a3533cc98623f5b98\
    14d8aeff2da532020cc9300f0603551d130101ff040530030101ff30190603551d1104123010820e2a2e7769\
    6c642e6578616d706c65300a06082a8648ce3d0403020348003045022100cf4e762f3e68d02b7068cb02ce9c\
    6a466d185e4c94647cebb035945722dbf56b022012c8c7bb36ddb62b961ba8bb46bf42c982dcbf00a9e526af\
    f18f2890bb4e21b7";

const NAMELESS: &str = "308201853082012ca0030201020214725b7cb523a6f4b680639498d15fbc2c00c8bb6b300a06082a8648ce3d\
    040302300f310d300b06035504030c04746573743020170d3236313131353232353131365a180f3231323631\
    3032323232353131365a300f310d300b06035504030c04746573743059301306072a8648ce3d020106082a86\
    48ce3d03010703420004e45662eeaa33c1a9323f0874304a28e9c355653533392ca427e3bd85374a11463026\
    ac9a81cd92bd202a344686d96d6032a36ca6364522d4d3de7a12f7bdc0f0a3643062301d0603551d0e041604\
    14df6a3533cc98623f5b9814d8aeff2da532020cc9301f0603551d23041830168014df6a3533cc98623f5b98\
    14d8aeff2da532020cc9300f0603551d130101ff040530030101ff300f0603551d110408300687047f000001\
    300a06082a8648ce3d04030203470030440220555bc6bb40c4d4f1eb8401f39df33a0d1f215924d2c01eb0d1\
    cb67d13cb8fcd1022051c31f3f0c24fc4b79f640296c7ab4fb9d12f97a6b86599b4d7a7f48f9409296";

const STARRED: &str = "3082018e30820133a00302010202141fcba42e7713aa57245006fa6f2b039d71e5ba5b300a06082a8648ce3d\
    040302300f310d300b06035504030c04746573743020170d3236313131353232353131365a180f3231323631\
    3032323232353131365a300f310d300b06035504030c04746573743059301306072a8648ce3d020106082a86\
    48ce3d03010703420004e45662eeaa33c1a9323f0874304a28e9c355653533392ca427e3bd85374a11463026\
    ac9a81cd92bd202a344686d96d6032a36ca6364522d4d3de7a12f7bdc0f0a36b3069301d0603551d0e041604\
    14df6a3533cc98623f5b9814d8aeff2da532020cc9301f0603551d23041830168014df6a3533cc98623f5b98\
    14d8aeff2da532020cc9300f0603551d130101ff040530030101ff30160603551d11040f300d820b612e2a2e\
    6578616d706c65300a06082a8648ce3d040302034900304602210096a0116d2874e58c4d003ab2ac7a534666\
    0fe6be2ac58482e2d3295cfc66c4380221009d21a33c2d9321be9129bf4fa66a0cfcd229bc7a0308bad95fd3\
    4348afe950f8";

const KEY: &str = "308187020100301306072a8648ce3d020106082a8648ce3d030107046d306b0201010420e677db65c24d4fe5\
    43c4c40b820f132d5152ffbbf704f18b8bc150532a4c339fa14403420004e45662eeaa33c1a9323f0874304a\
    28e9c355653533392ca427e3bd85374a11463026ac9a81cd92bd202a344686d96d6032a36ca6364522d4d3de\
    7a12f7bdc0f0";

const OTHER_KEY: &str = "308187020100301306072a8648ce3d020106082a8648ce3d030107046d306b02010104202750d45387293b67\
    9990e143e16f71b55d4b27071c4bf74b9335adb9f03c886ca144034200046ac451de0880f079dd8062716c71\
    2c70695b11b350863b29177247b68cf213a01eed78fe9d3e89e570ba5117e55d65ce2873ce5f6e7fdcbef260\
    7cc1bab85a32";

const KEY_LABEL: &str = "PRIVATE KEY";

const NOT_AFTER: i64 = 4_948_383_076;

fn der(hexadecimal: &str) -> Vec<u8> {
    (0..hexadecimal.len() / 2)
        .map(|i| u8::from_str_radix(&hexadecimal[2 * i..2 * i + 2], 16).unwrap())
        .collect()
}

fn base64(bytes: &[u8]) -> String {
    let digits = b"ABCDEFGHIJKLMNOPQRSTUVWXYZabcdefghijklmnopqrstuvwxyz0123456789+/";
    let mut text = String::new();
    for chunk in bytes.chunks(3) {
        let mut group = 0_u32;
        for i in 0..3 {
            group = group << 8 | u32::from(chunk.get(i).copied().unwrap_or(0));
        }
        for i in 0..4 {
            if i <= chunk.len() {
                text.push(char::from(digits[(group >> (18 - 6 * i) & 63) as usize]));
            } else {
                text.push('=');
            }
        }
    }
    text
}

fn pem(label: &str, hexadecimal: &str) -> Vec<u8> {
    let text = base64(&der(hexadecimal));
    let mut lines = format!("-----BEGIN {label}-----\n");
    for i in (0..text.len()).step_by(64) {
        lines.push_str(&text[i..(i + 64).min(text.len())]);
        lines.push('\n');
    }
    lines.push_str(&format!("-----END {label}-----\n"));
    lines.into_bytes()
}

fn certificate(hexadecimal: &str) -> Vec<u8> {
    pem("CERTIFICATE", hexadecimal)
}

fn key(hexadecimal: &str) -> Vec<u8> {
    pem(KEY_LABEL, hexadecimal)
}

fn pair(id: &str, hexadecimal: &str) -> CertificatePair {
    CertificatePair {
        id: id.to_owned(),
        certificate: certificate(hexadecimal),
        key: key(KEY),
    }
}

fn config(default_certificate: Option<&str>) -> TlsConfig {
    let file = FileTlsConfig {
        cert_dir: "certs".to_owned(),
        cert_suffix: ".fullchain.pem".to_owned(),
        key_suffix: ".key.pem".to_owned(),
        default_certificate: default_certificate.map(str::to_owned),
    };
    match file.validate("/etc/gateway") {
        Ok(config) => config,
        Err(error) => panic!("{}", error.message()),
    }
}

fn index(default_certificate: Option<&str>) -> CertificateIndex {
    match CertificateIndex::build(
        &config(default_certificate),
        &vec![pair("first", FIRST), pair("second", SECOND)],
    ) {
        Ok(index) => index,
        Err(error) => panic!("{error}"),
    }
}

fn leaf_names(names: &[&str]) -> LeafParts {
    LeafParts {
        extensions: vec![
            LeafExtension::Other,
            LeafExtension::SubjectAlternativeName(
                names.iter().map(|name| LeafName::Dns((*name).to_owned())).collect(),
            ),
        ],
        not_after_unix: 5,
    }
}

fn names(list: &[&str]) -> Vec<String> {
    list.iter().map(|name| (*name).to_owned()).collect()
}

#[test]
fn wildcard_scope_is_single_label() {
    assert_eq!(
        wildcard_suffix("api.example.com").as_deref(),
        Some("example.com")
    );
    assert_eq!(
        wildcard_suffix("v1.api.example.com").as_deref(),
        Some("api.example.com")
    );
}

#[test]
fn a_single_label_has_no_wildcard() {
    assert_eq!(wildcard_suffix("localhost"), None);
    assert_eq!(wildcard_suffix("a.").as_deref(), Some(""));
}

#[test]
fn a_pair_is_read() {
    let Ok((certified, metadata)) =
        parse_certificate_pair("first", &certificate(FIRST), &key(KEY))
    else {
        panic!("the pair should be accepted");
    };
    assert_eq!(certified.cert.len(), 1);
    assert_eq!(certified.cert[0].as_ref(), &der(FIRST)[..]);
    assert_eq!(metadata.dns_names(), &names(&["*.wild.example", "example.com"]));
    assert_eq!(metadata.leaf_certificate(), &der(FIRST));
    assert_eq!(metadata.not_after_unix(), NOT_AFTER);
}

#[test]
fn pairs_are_refused_with_a_reason() {
    fn reason(certificate: &[u8], key: &[u8]) -> String {
        match parse_certificate_pair("x", certificate, key) {
            Ok(_) => panic!("the pair should be refused"),
            Err(error) => error,
        }
    }
    let unreadable = String::from_utf8(key(KEY)).unwrap().replacen('M', "!", 1).into_bytes();
    assert_eq!(
        reason(b"", &key(KEY)),
        "TLS certificate \"x\" contains no certificates"
    );
    assert_eq!(
        reason(b"-----BEGIN CERTIFICATE-----\n!\n-----END CERTIFICATE-----\n", &key(KEY)),
        "failed to parse TLS certificate chain for \"x\""
    );
    assert_eq!(
        reason(&certificate(FIRST), b""),
        "TLS private key \"x\" contains no supported private key"
    );
    assert_eq!(
        reason(&certificate(FIRST), &unreadable),
        "failed to parse TLS private key for \"x\""
    );
    assert_eq!(
        reason(&certificate(FIRST), &key(OTHER_KEY)),
        "TLS certificate and private key for \"x\" are incompatible"
    );
    assert_eq!(
        reason(&certificate(NAMELESS), &key(KEY)),
        "TLS certificate \"x\" contains no DNS Subject Alternative Names"
    );
    assert_eq!(
        reason(&certificate(STARRED), &key(KEY)),
        "TLS certificate \"x\" contains unsupported wildcard SAN \"a.*.example\""
    );
}

#[test]
fn parsed_values_are_enough_for_a_pair() {
    let private_key = || {
        Ok(Some(PrivateKey { kind: PrivateKeyKind::Pkcs8, der: der(KEY) }))
    };
    assert!(certificate_pair_from("x", Ok(vec![der(FIRST)]), private_key()).is_ok());
    for (certificates, key, reason) in [
        (
            Err("odd".to_owned()),
            private_key(),
            "failed to parse TLS certificate chain for \"x\"",
        ),
        (Ok(vec![]), private_key(), "TLS certificate \"x\" contains no certificates"),
        (
            Ok(vec![der(FIRST)]),
            Err("odd".to_owned()),
            "failed to parse TLS private key for \"x\"",
        ),
        (
            Ok(vec![der(FIRST)]),
            Ok(None),
            "TLS private key \"x\" contains no supported private key",
        ),
        (
            Ok(vec![der(FIRST)]),
            Ok(Some(PrivateKey { kind: PrivateKeyKind::Sec1, der: der(KEY) })),
            "TLS certificate and private key for \"x\" are incompatible",
        ),
    ] {
        match certificate_pair_from("x", certificates, key) {
            Ok(_) => panic!("the pair should be refused"),
            Err(error) => assert_eq!(error, reason),
        }
    }
}

#[test]
fn leaves_are_summed_up() {
    let Ok(metadata) = leaf_metadata_from(
        "x",
        vec![1, 2],
        Ok(leaf_names(&["B.example.", "*.a.example", "b.example"])),
    ) else {
        panic!("the leaf should be accepted");
    };
    assert_eq!(metadata.dns_names(), &names(&["*.a.example", "b.example"]));
    assert_eq!(metadata.leaf_certificate(), &vec![1, 2]);
    assert_eq!(metadata.not_after_unix(), 5);
    for bad in ["*.", "*.*.a", "a*", "*a.b"] {
        match leaf_metadata_from("x", Vec::new(), Ok(leaf_names(&[bad]))) {
            Ok(_) => panic!("{bad:?} should be refused"),
            Err(error) => assert!(
                error.starts_with("TLS certificate \"x\" contains unsupported wildcard SAN"),
                "{error}"
            ),
        }
    }
    match leaf_metadata_from("x", Vec::new(), Err("odd".to_owned())) {
        Ok(_) => panic!("the leaf should be refused"),
        Err(error) => {
            assert_eq!(error, "failed to parse leaf X.509 certificate \"x\": odd");
        }
    }
    assert!(parse_leaf_metadata("x", vec![1, 2, 3]).is_err());
    assert!(parse_leaf_metadata("x", der(THIRD)).is_ok());
}

#[test]
fn certificates_are_found_by_name() {
    let index = index(Some("second"));
    let chain = |found: Option<std::sync::Arc<rustls::sign::CertifiedKey>>| {
        found.map(|certified| certified.cert[0].as_ref().to_vec())
    };
    let first = Some(der(FIRST));
    let second = Some(der(SECOND));
    assert_eq!(chain(resolve(&index, Some("Example.com."))), first);
    assert_eq!(chain(resolve(&index, Some("a.wild.example"))), first);
    assert_eq!(chain(resolve(&index, Some("a.b.wild.example"))), second);
    assert_eq!(chain(resolve(&index, Some("wild.example"))), second);
    assert_eq!(chain(resolve(&index, Some("other.example"))), second);
    assert_eq!(chain(resolve(&index, None)), second);
    assert_eq!(chain(resolve_wildcard(&index, "a.wild.example")), first);
    assert!(resolve_wildcard(&index, "example.com").is_none());
    assert_eq!(chain(index.exact_certificate("example.com")), first);
    assert!(index.exact_certificate("*.wild.example").is_none());
    assert_eq!(chain(index.wildcard_certificate("wild.example")), first);
    assert_eq!(chain(index.default_certificate()), second);

    let without_default = crate::index(None);
    assert!(resolve(&without_default, Some("unknown.example")).is_none());
    assert!(resolve(&without_default, None).is_none());
}

#[test]
fn an_index_knows_its_certificates() {
    let index = index(Some("second"));
    assert!(!index.is_empty());
    assert_eq!(index.certificate_count(), 2);
    assert_eq!(
        index.metadata("first").map(|metadata| metadata.dns_names().clone()),
        Some(names(&["*.wild.example", "example.com"]))
    );
    assert!(index.metadata("third").is_none());
    assert!(index.default_certificate_available(&config(Some("second"))));
    assert!(!index.default_certificate_available(&config(Some("third"))));
    assert!(index.default_certificate_available(&config(None)));

    let empty = CertificateIndex::empty();
    assert!(empty.is_empty());
    assert_eq!(empty.certificate_count(), 0);
    assert!(empty.default_certificate().is_none());
}

#[test]
fn names_belong_to_one_certificate() {
    fn reason(pairs: Vec<CertificatePair>) -> String {
        match CertificateIndex::build(&config(None), &pairs) {
            Ok(_) => panic!("the certificates should be refused"),
            Err(error) => error,
        }
    }
    assert_eq!(
        reason(vec![pair("first", FIRST), pair("third", THIRD)]),
        "more than one TLS certificate claims DNS SAN \"example.com\""
    );
    assert_eq!(
        reason(vec![pair("first", FIRST), pair("fourth", FOURTH)]),
        "more than one TLS certificate claims wildcard SAN \"*.wild.example\""
    );
    assert_eq!(
        reason(vec![pair("a", NAMELESS)]),
        "TLS certificate \"a\" contains no DNS Subject Alternative Names"
    );
}

#[test]
fn replacements_may_not_take_names_of_others() {
    let index = index(None);
    assert!(index.validate_replacement("first", &certificate(THIRD), &key(KEY)).is_ok());
    match index.validate_replacement("new", &certificate(THIRD), &key(KEY)) {
        Ok(_) => panic!("the replacement should be refused"),
        Err(error) => assert_eq!(
            error,
            "replacement TLS certificate \"new\" claims DNS SAN \"example.com\", already owned by \
             certificate \"first\""
        ),
    }
    assert!(index.validate_replacement("new", b"", &key(KEY)).is_err());
    let Ok(candidate) = parse_leaf_metadata("new", der(SECOND)) else {
        panic!("the leaf should be accepted");
    };
    assert!(index.replacement_conflict("second", &candidate).is_none());
    assert!(index.replacement_conflict("new", &candidate).is_some());
}

#[test]
fn files_come_in_pairs() {
    let config = config(None);
    assert_eq!(
        discover_pairs(
            &config,
            &names(&["b.key.pem", "a.fullchain.pem", "notes.txt", "a.key.pem", "b.fullchain.pem"]),
        ),
        Ok(names(&["a", "b"]))
    );
    assert_eq!(discover_pairs(&config, &names(&[])), Ok(names(&[])));
    for (list, reason) in [
        (
            names(&[".fullchain.pem"]),
            "TLS certificate filename \".fullchain.pem\" has an empty certificate id",
        ),
        (
            names(&[".key.pem"]),
            "TLS key filename \".key.pem\" has an empty certificate id",
        ),
        (
            names(&["a.fullchain.pem", "a.fullchain.pem"]),
            "duplicate TLS certificate id \"a\"",
        ),
        (names(&["a.key.pem", "a.key.pem"]), "duplicate TLS key id \"a\""),
        (
            names(&["b.key.pem", "a.key.pem"]),
            "TLS private key \"a\" has no matching certificate",
        ),
        (
            names(&["b.key.pem", "b.fullchain.pem", "c.fullchain.pem"]),
            "TLS certificate \"c\" has no matching private key",
        ),
    ] {
        assert_eq!(discover_pairs(&config, &list), Err(reason.to_owned()));
    }
}

#[test]
fn certificates_of_a_file_are_trusted() {
    let unusable = certificate("010203");
    let mut roots = RootCertStore::empty();
    let two = [certificate(FIRST), certificate(SECOND)].concat();
    assert_eq!(add_trust_anchors("ca.pem", &two, &mut roots), Ok(None));
    assert_eq!(roots.len(), 2);
    let mixed = [unusable.clone(), certificate(THIRD), unusable.clone()].concat();
    assert_eq!(add_trust_anchors("ca.pem", &mixed, &mut roots), Ok(Some(2)));
    assert_eq!(roots.len(), 3);
    for pem in [&unusable[..], b""] {
        assert_eq!(
            add_trust_anchors("ca.pem", pem, &mut roots),
            Err("fallback CA file ca.pem contains no usable CA certificates".to_owned())
        );
    }
    let unreadable = b"-----BEGIN CERTIFICATE-----\n!\n-----END CERTIFICATE-----\n";
    assert_eq!(
        add_trust_anchors("ca.pem", unreadable, &mut roots),
        Err("failed to parse fallback CA file ca.pem".to_owned())
    );
    assert_eq!(roots.len(), 3);
}

#[test]
fn parsed_certificates_are_trusted() {
    let mut roots = RootCertStore::empty();
    assert_eq!(
        add_parsed_anchors("ca.pem", Ok(vec![der(FIRST), vec![1]]), &mut roots),
        Ok(Some(1))
    );
    assert_eq!(roots.len(), 1);
    assert_eq!(
        add_parsed_anchors("ca.pem", Err("odd".to_owned()), &mut roots),
        Err("failed to parse fallback CA file ca.pem".to_owned())
    );
    assert_eq!(roots.len(), 1);
}
