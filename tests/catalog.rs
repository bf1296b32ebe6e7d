use emote_fetch::catalog::{bttv_channel_url, BTTVEmoteData, TTVEmoteData};
use emote_fetch::json::EmoteError;

fn pairs(v: &[(&str, &str)]) -> Vec<(String, String)> {
    v.iter().map(|(a, b)| (a.to_string(), b.to_string())).collect()
}

#[test]
fn global_emotes_scenario() {
    let mut data = TTVEmoteData::new();
    let body = r#"{"template":{"small":"https://x/{image_id}/1.0"},"emotes":{"Kappa":{"image_id":25}}}"#;
    assert_eq!(data.get_global_emotes(body), Ok(()));
    assert_eq!(data.template, "https://x/{image_id}/1.0");
    assert_eq!(data.data, pairs(&[("Kappa", "25")]));
}

#[test]
fn global_emotes_one_record_per_entry_in_decimal() {
    let mut data = TTVEmoteData::new();
    let body = r#"{"template":{"small":"t"},"emotes":{"A":{"image_id":0},"B":{"image_id":18446744073709551615},"C":{"image_id":1234567890}}}"#;
    assert_eq!(data.get_global_emotes(body), Ok(()));
    assert_eq!(
        data.data,
        pairs(&[("A", "0"), ("B", "18446744073709551615"), ("C", "1234567890")])
    );
}

#[test]
fn global_emotes_accumulate_and_take_latest_template() {
    let mut data = TTVEmoteData::new();
    let b1 = r#"{"template":{"small":"one"},"emotes":{"A":{"image_id":1}}}"#;
    let b2 = r#"{"template":{"small":"two"},"emotes":{"A":{"image_id":1}}}"#;
    assert_eq!(data.get_global_emotes(b1), Ok(()));
    assert_eq!(data.get_global_emotes(b2), Ok(()));
    assert_eq!(data.template, "two");
    assert_eq!(data.data, pairs(&[("A", "1"), ("A", "1")]));
}

#[test]
fn global_emotes_malformed_entry_adds_nothing() {
    let mut data = TTVEmoteData::new();
    let body = r#"{"template":{"small":"t"},"emotes":{"A":{"image_id":1},"B":{"image_id":"x"}}}"#;
    assert_eq!(data.get_global_emotes(body), Err(EmoteError::Schema));
    assert_eq!(data.template, "");
    assert!(data.data.is_empty());
}

#[test]
fn global_emotes_missing_template_is_schema_error() {
    let mut data = TTVEmoteData::new();
    let body = r#"{"emotes":{"A":{"image_id":1}}}"#;
    assert_eq!(data.get_global_emotes(body), Err(EmoteError::Schema));
    assert!(data.data.is_empty());
}

#[test]
fn global_emotes_api_error_is_passed_on() {
    let mut data = TTVEmoteData::new();
    let body = r#"{"status":500,"message":"down"}"#;
    assert_eq!(data.get_global_emotes(body), Err(EmoteError::Api("down".to_string())));
}

#[test]
fn global_emotes_bad_json_is_decode_error() {
    let mut data = TTVEmoteData::new();
    assert_eq!(data.get_global_emotes("{not json"), Err(EmoteError::Decode));
}

const SUBSCRIBER: &str = r#"{"template":{"small":"https://s/{image_id}"},"channels":{"xqc":{"emotes":[{"code":"xqcL","image_id":7},{"code":"xqcM","image_id":8}]},"other":{"emotes":[{"code":"o","image_id":9}]},"empty":{"emotes":[]}}}"#;

#[test]
fn channel_lookup_ignores_case() {
    let mut data = TTVEmoteData::new();
    assert_eq!(data.update_sub_emote_data(SUBSCRIBER), Ok(()));
    assert_eq!(data.template, "https://s/{image_id}");
    assert_eq!(data.get_subscriber_emotes("Xqc"), Ok(()));
    assert_eq!(data.data, pairs(&[("xqcL", "7"), ("xqcM", "8")]));
}

#[test]
fn channel_lookup_unknown_channel_is_not_found() {
    let mut data = TTVEmoteData::new();
    assert_eq!(data.update_sub_emote_data(SUBSCRIBER), Ok(()));
    assert_eq!(data.get_subscriber_emotes("nobody"), Err(EmoteError::NotFound));
    assert_eq!(data.get_subscriber_emotes("empty"), Err(EmoteError::NotFound));
    assert!(data.data.is_empty());
}

#[test]
fn channel_lookup_before_loading_is_refused() {
    let mut data = TTVEmoteData::new();
    assert_eq!(data.get_subscriber_emotes("xqc"), Err(EmoteError::NotLoaded));
}

#[test]
fn channel_lookup_sums_every_matching_channel() {
    let mut data = TTVEmoteData::new();
    let body = r#"{"template":{"small":"t"},"channels":{"AB":{"emotes":[{"code":"a","image_id":1}]},"ab":{"emotes":[{"code":"b","image_id":2}]}}}"#;
    assert_eq!(data.update_sub_emote_data(body), Ok(()));
    assert_eq!(data.get_subscriber_emotes("aB"), Ok(()));
    assert_eq!(data.data, pairs(&[("a", "1"), ("b", "2")]));
}

#[test]
fn subscriber_data_without_channels_is_schema_error() {
    let mut data = TTVEmoteData::new();
    let body = r#"{"template":{"small":"t"}}"#;
    assert_eq!(data.update_sub_emote_data(body), Err(EmoteError::Schema));
    assert_eq!(data.sub_emotes, None);
}

#[test]
fn malformed_matching_channel_is_schema_error() {
    let mut data = TTVEmoteData::new();
    let body = r#"{"template":{"small":"t"},"channels":{"a":{"emotes":[{"code":"x"}]},"b":{"emotes":[{"code":"y","image_id":3}]}}}"#;
    assert_eq!(data.update_sub_emote_data(body), Ok(()));
    assert_eq!(data.get_subscriber_emotes("A"), Err(EmoteError::Schema));
    assert_eq!(data.get_subscriber_emotes("b"), Ok(()));
    assert_eq!(data.data, pairs(&[("y", "3")]));
}

const BTTV: &str = r#"{"status":200,"urlTemplate":"//cdn.betterttv.net/emote/{{id}}/{{image}}","emotes":[{"code":"FeelsBadMan","id":"abc","imageType":"png"},{"code":"Dance","id":"def","imageType":"gif"},{"code":"Odd","id":"ghi","imageType":"webp"},{"code":"Big","id":"jkl","imageType":"PNG"}]}"#;

#[test]
fn bttv_keeps_only_png_and_warns_on_other_types() {
    let mut data = BTTVEmoteData::new();
    let warnings = data.get_global_bttv_emotes(BTTV).unwrap();
    assert_eq!(data.data, pairs(&[("FeelsBadMan", "abc")]));
    assert_eq!(warnings, vec!["webp".to_string(), "PNG".to_string()]);
}

#[test]
fn bttv_template_gets_size_and_scheme() {
    let mut data = BTTVEmoteData::new();
    data.get_channel_bttv_emote(BTTV).unwrap();
    assert_eq!(data.template, "https://cdn.betterttv.net/emote/{{id}}/1x");
}

#[test]
fn bttv_template_with_scheme_is_kept() {
    let mut data = BTTVEmoteData::new();
    let body = r#"{"urlTemplate":"https://c/{{id}}/{{image}}","emotes":[]}"#;
    assert_eq!(data.get_channel_bttv_emote(body), Ok(vec![]));
    assert_eq!(data.template, "https://c/{{id}}/1x");
}

#[test]
fn bttv_missing_image_type_adds_nothing() {
    let mut data = BTTVEmoteData::new();
    let body = r#"{"urlTemplate":"//c/{{id}}","emotes":[{"code":"a","id":"1","imageType":"png"},{"code":"b","id":"2"}]}"#;
    assert_eq!(data.get_global_bttv_emotes(body), Err(EmoteError::Schema));
    assert!(data.data.is_empty());
    assert_eq!(data.template, "");
}

#[test]
fn bttv_api_error() {
    let mut data = BTTVEmoteData::new();
    let body = r#"{"status":404,"message":"Channel not found"}"#;
    assert_eq!(
        data.get_channel_bttv_emote(body),
        Err(EmoteError::Api("Channel not found".to_string()))
    );
}

#[test]
fn bttv_channel_address() {
    assert_eq!(bttv_channel_url("forsen"), "https://api.betterttv.net/2/channels/forsen");
}
