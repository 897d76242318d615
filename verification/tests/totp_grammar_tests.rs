use yubikey_oath::constants::OathType;
use yubikey_oath::CredentialIDData;

/// What the regular expression for TOTP identifiers, matched with the
/// `regex` crate, makes of `data`: `None` where a match lacks the issuer
/// group.
fn by_pattern(data: &str) -> Option<(Option<String>, String, u32)> {
    let re = regex::Regex::new(r"^((\d+)/)?(([^:]+):)?(.+)$").unwrap();
    match re.captures(data) {
        None => Some((None, data.to_string(), 30)),
        Some(caps) => {
            let period = caps.get(2).and_then(|s| s.as_str().parse::<u32>().ok()).unwrap_or(30);
            let issuer = caps.get(4)?.as_str().to_string();
            Some((Some(issuer), caps.get(5).unwrap().as_str().to_string(), period))
        }
    }
}

#[test]
fn totp_reader_agrees_with_the_pattern() {
    let samples = [
        "Corp:bob", "60/Corp:bob", "bob", "60/bob", "a:b:c", "Corp:", ":bob", "/x:y", "60/",
        "60//a:b", "6a/x:y", "Co\nrp:bob", "Corp:a\nb", "a\nb", "", "\u{663}\u{660}/Corp:bob",
        "12:34", "12/34:56", "99999999999/I:n", "0/I:n", "I:\n", "x/y:z", "1/:z", "1/a:",
        "\u{1d7ce}/i:n", "\n", "a:\nb:c",
    ];
    for data in samples {
        let ours = CredentialIDData::try_from_bytes(data.as_bytes(), 0x76)
            .map(|c| (c.issuer, c.name, c.period));
        assert_eq!(ours, by_pattern(data), "on {:?}", data);
        if let Some(c) = CredentialIDData::try_from_bytes(data.as_bytes(), 0x76) {
            assert_eq!(c.oath_type, OathType::Totp);
        }
    }
}
