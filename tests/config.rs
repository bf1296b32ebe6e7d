use emote_fetch::config::Config;

#[test]
fn config_starts_empty() {
    let c = Config::new();
    assert!(!c.global_ttv);
    assert!(!c.global_bttv);
    assert!(c.ttv_channels.is_empty());
    assert!(c.bttv_channels.is_empty());
}

#[test]
fn config_reads_known_keys() {
    let mut c = Config::new();
    let text = "TTV-Global:true\r\nTTV-Channel:xqc\n\nBTTV-Global:yes\nBTTV-Channel:forsen\nTTV-Channel:a:b\n";
    let warnings = c.read_from_text(text);
    assert!(warnings.is_empty());
    assert!(c.global_ttv);
    assert!(!c.global_bttv);
    assert_eq!(c.ttv_channels, vec!["xqc".to_string(), "b".to_string()]);
    assert_eq!(c.bttv_channels, vec!["forsen".to_string()]);
}

#[test]
fn config_reports_unknown_keys() {
    let mut c = Config::new();
    let warnings = c.read_from_text("Other:1\nnocolon\n:x");
    assert_eq!(warnings, vec!["Other".to_string(), "nocolon".to_string()]);
    assert!(c.ttv_channels.is_empty());
}

#[test]
fn config_line_without_colon_is_key_and_value() {
    let mut c = Config::new();
    assert_eq!(c.apply_line("TTV-Global"), None);
    assert!(!c.global_ttv);
    assert_eq!(c.apply_line("BTTV-Channel"), None);
    assert_eq!(c.bttv_channels, vec!["BTTV-Channel".to_string()]);
}

#[test]
fn config_text_round_trip() {
    let mut c = Config::new();
    c.global_ttv = true;
    c.ttv_channels.push("xqc".to_string());
    c.bttv_channels.push("forsen".to_string());
    let text = c.to_text();
    assert_eq!(text, "TTV-Global:true\nTTV-Channel:xqc\nBTTV-Global:false\nBTTV-Channel:forsen\n");
    let mut d = Config::new();
    assert!(d.read_from_text(&text).is_empty());
    assert_eq!(d.global_ttv, true);
    assert_eq!(d.global_bttv, false);
    assert_eq!(d.ttv_channels, c.ttv_channels);
    assert_eq!(d.bttv_channels, c.bttv_channels);
}
