use librefang::json::{parse_text, Json};
use librefang::types::{ChannelContent, ChannelType, ChannelUser, DmPolicy, GroupPolicy};
use librefang::whatsapp::{
    error_reason, extract_gateway_error_reason, failure_message, failure_with_reason,
    gateway_send_audio, gateway_send_image, gateway_send_message, gateway_send_pieces, media_id,
    mentions_bot, uploaded_media_id, Delivery, OnFailure, Request, UploadError, WhatsAppAdapter,
    MAX_MESSAGE_LEN,
};

type Content = ChannelContent<()>;

fn adapter(allowed: Vec<String>) -> WhatsAppAdapter {
    WhatsAppAdapter::new("12345".to_string(), 8443, allowed)
}

fn gateway() -> WhatsAppAdapter {
    adapter(vec![]).with_gateway(Some("http://127.0.0.1:3009/".to_string()))
}

fn user() -> ChannelUser {
    ChannelUser {
        platform_id: "+39".to_string(),
        display_name: "x".to_string(),
        librefang_user: None,
    }
}

fn text(s: &str) -> Content {
    ChannelContent::Text(s.to_string())
}

fn voice(url: &str) -> Content {
    ChannelContent::Voice { url: url.to_string(), caption: None, rest: () }
}

fn image(url: &str, caption: Option<&str>) -> Content {
    ChannelContent::Image {
        url: url.to_string(),
        caption: caption.map(|c| c.to_string()),
        rest: (),
    }
}

/// A JSON value as a line of text, members in order.
fn show(j: &Json) -> String {
    match j {
        Json::Null => "null".to_string(),
        Json::Bool(b) => b.to_string(),
        Json::Number { text, .. } => text.clone(),
        Json::Double(bits) => f64::from_bits(*bits).to_string(),
        Json::Text(t) => format!("'{t}'"),
        Json::Array(items) => {
            let all: Vec<String> = items.iter().map(show).collect();
            format!("[{}]", all.join(" "))
        }
        Json::Object(members) => {
            let all: Vec<String> =
                members.iter().map(|(k, v)| format!("{k}={}", show(v))).collect();
            format!("{{{}}}", all.join(" "))
        }
    }
}

const CLOUD_MESSAGES: &str = "https://graph.facebook.com/v21.0/12345/messages";

#[test]
fn test_whatsapp_adapter_creation() {
    let adapter = adapter(vec![]);
    assert_eq!(adapter.name(), "whatsapp");
    assert_eq!(adapter.channel_type(), ChannelType::WhatsApp);
}

#[test]
fn test_allowed_users_check() {
    let closed = adapter(vec!["+1234567890".to_string()]);
    assert!(closed.is_allowed("+1234567890"));
    assert!(!closed.is_allowed("+9999999999"));

    let open = adapter(vec![]);
    assert!(open.is_allowed("+anything"));
}

#[test]
fn test_dm_policy_defaults() {
    let adapter = adapter(vec![]);
    // Default DmPolicy is Respond
    assert!(adapter.should_handle_message(false, "hello", "+1234567890"));
}

#[test]
fn test_dm_policy_ignore() {
    let adapter = adapter(vec![]).with_dm_policy(DmPolicy::Ignore);
    assert!(!adapter.should_handle_message(false, "hello", "+1234567890"));
}

#[test]
fn test_dm_policy_allowed_only() {
    let adapter =
        adapter(vec!["+1234567890".to_string()]).with_dm_policy(DmPolicy::AllowedOnly);
    // Allowed sender → handle
    assert!(adapter.should_handle_message(false, "hello", "+1234567890"));
    // Unknown sender → reject
    assert!(!adapter.should_handle_message(false, "hello", "+9999999999"));
}

#[test]
fn test_group_policy_all() {
    let adapter = adapter(vec![]).with_group_policy(GroupPolicy::All);
    assert!(adapter.should_handle_message(true, "any group message", ""));
}

#[test]
fn test_group_policy_mention_only() {
    let adapter = adapter(vec![])
        .with_group_policy(GroupPolicy::MentionOnly)
        .with_bot_name(Some("HermesBot".to_string()))
        .with_bot_phone(Some("+15551234567".to_string()));

    // Without mention — should not handle
    assert!(!adapter.should_handle_message(true, "what time is it?", ""));
    // With bot name mention
    assert!(adapter.should_handle_message(true, "@HermesBot what time is it?", ""));
    // With bot phone mention
    assert!(adapter.should_handle_message(true, "+15551234567 hello", ""));
}

#[test]
fn test_group_policy_commands_only() {
    let adapter = adapter(vec![]).with_group_policy(GroupPolicy::CommandsOnly);
    assert!(!adapter.should_handle_message(true, "hello everyone", ""));
    assert!(adapter.should_handle_message(true, "/help", ""));
}

#[test]
fn test_group_policy_ignore() {
    let adapter = adapter(vec![]).with_group_policy(GroupPolicy::Ignore);
    assert!(!adapter.should_handle_message(true, "/help", ""));
}

#[test]
fn groups_want_a_mention_by_default() {
    let adapter = adapter(vec![]).with_bot_name(Some("Hermes".to_string()));
    assert!(!adapter.should_handle_message(true, "hello", ""));
    assert!(adapter.should_handle_message(true, "ciao HERMES", ""));
}

#[test]
fn mentions_are_found_in_any_form() {
    let adapter = adapter(vec![])
        .with_bot_name(Some("Città".to_string()))
        .with_bot_phone(Some("++39".to_string()));
    assert!(adapter.is_bot_mentioned("ciao @39!"));
    assert!(adapter.is_bot_mentioned("ciao ++39"));
    assert!(!adapter.is_bot_mentioned("ciao 39"));
    assert!(adapter.is_bot_mentioned("CITTÀ"));
    assert!(!adapter.is_bot_mentioned("citta"));
    assert!(!WhatsAppAdapter::new("1".to_string(), 1, vec![]).is_bot_mentioned("@39"));
}

#[test]
fn mention_of_a_lowercased_text() {
    assert!(mentions_bot("hi @1", Some("+1"), None));
    assert!(mentions_bot("hi +1", Some("+1"), None));
    assert!(!mentions_bot("hi 1", Some("+1"), None));
    assert!(mentions_bot("hi bot", None, Some("bot")));
    assert!(mentions_bot("hi bot", Some("+1"), Some("bot")));
    assert!(!mentions_bot("hi bot", Some("+1"), Some("Bot")));
    assert!(mentions_bot("anything", None, Some("")));
    assert!(!mentions_bot("anything", None, None));
}

#[test]
fn commands_may_follow_white_space() {
    let adapter = adapter(vec![]).with_group_policy(GroupPolicy::CommandsOnly);
    assert!(adapter.should_handle_message(true, " \t\u{3000}/help", ""));
    assert!(!adapter.should_handle_message(true, "", ""));
    assert!(!adapter.should_handle_message(true, "x /help", ""));
}

#[test]
fn policies_are_separate() {
    let quiet = adapter(vec![])
        .with_dm_policy(DmPolicy::Ignore)
        .with_group_policy(GroupPolicy::All);
    assert!(quiet.should_handle_message(true, "x", "y"));
    assert!(!quiet.should_handle_message(false, "x", "y"));
    let direct = adapter(vec![])
        .with_dm_policy(DmPolicy::Respond)
        .with_group_policy(GroupPolicy::Ignore);
    assert!(!direct.should_handle_message(true, "/x", "y"));
    assert!(direct.should_handle_message(false, "/x", "y"));
}

#[test]
fn gateway_mode_needs_a_url() {
    assert!(!adapter(vec![]).is_gateway_mode());
    assert!(!adapter(vec![]).with_gateway(None).is_gateway_mode());
    assert!(!adapter(vec![]).with_gateway(Some(String::new())).is_gateway_mode());
    assert!(gateway().is_gateway_mode());
    assert!(gateway().with_account_id(Some("a".to_string())).is_gateway_mode());
    assert!(!gateway().with_gateway(None).is_gateway_mode());
    assert_eq!(gateway().webhook_port(), 8443);
}

#[test]
fn gateway_text_post() {
    let r = gateway_send_message("http://g//", "+39", "ciao", Some("id1"));
    assert_eq!(r.url, "http://g/message/send");
    assert!(!r.authorized);
    assert_eq!(show(&r.body), "{to='+39' text='ciao' reply_to='id1'}");
    assert_eq!(r.on_failure, OnFailure::GatewayText);
    let r = gateway_send_message("http://g", "+39", "ciao", Some(""));
    assert_eq!(show(&r.body), "{to='+39' text='ciao'}");
}

#[test]
fn gateway_image_post() {
    let r = gateway_send_image("http://g", "+39", "http://i", None, None);
    assert_eq!(r.url, "http://g/message/send-image");
    assert_eq!(show(&r.body), "{to='+39' image_url='http://i' caption=''}");
    assert_eq!(r.on_failure, OnFailure::GatewayImage);
    let r = gateway_send_image("http://g", "+39", "http://i", Some("c"), Some("id1"));
    assert_eq!(show(&r.body), "{to='+39' image_url='http://i' caption='c' reply_to='id1'}");
}

#[test]
fn gateway_audio_post() {
    let r = gateway_send_audio("http://g/", "+39", "http://a", false, None);
    assert_eq!(r.url, "http://g/message/send-audio");
    assert_eq!(show(&r.body), "{to='+39' audio_url='http://a' ptt=false}");
    assert_eq!(r.on_failure, OnFailure::GatewayAudio);
    let r = gateway_send_audio("http://g/", "+39", "http://a", true, Some("id1"));
    assert_eq!(show(&r.body), "{to='+39' audio_url='http://a' ptt=true reply_to='id1'}");
}

#[test]
fn gateway_takes_voice_audio_and_images() {
    let g = gateway();
    let bodies = |content: Content| -> Vec<String> {
        g.gateway_or_cloud_send(&user(), &content, Some("q"), "")
            .iter()
            .map(|r| format!("{} {}", r.url, show(&r.body)))
            .collect()
    };
    let base = "http://127.0.0.1:3009/message";
    assert_eq!(
        bodies(voice("v")),
        [format!("{base}/send-audio {{to='+39' audio_url='v' ptt=true reply_to='q'}}")]
    );
    assert_eq!(
        bodies(ChannelContent::Audio { url: "a".to_string(), caption: None, rest: () }),
        [format!("{base}/send-audio {{to='+39' audio_url='a' ptt=false reply_to='q'}}")]
    );
    assert_eq!(
        bodies(image("i", Some("c"))),
        [format!("{base}/send-image {{to='+39' image_url='i' caption='c' reply_to='q'}}")]
    );
    assert_eq!(
        bodies(text("t")),
        [format!("{base}/send {{to='+39' text='t' reply_to='q'}}")]
    );
    assert_eq!(
        bodies(ChannelContent::File { url: "f".to_string(), filename: "a.pdf".to_string() }),
        [format!(
            "{base}/send {{to='+39' text='(File: a.pdf — not supported in Web mode)' reply_to='q'}}"
        )]
    );
    assert_eq!(
        bodies(ChannelContent::Sticker { rest: () }),
        [format!(
            "{base}/send {{to='+39' text='(Unsupported content type in Web mode)' reply_to='q'}}"
        )]
    );
}

#[test]
fn cloud_takes_native_types() {
    let a = adapter(vec![]);
    let bodies = |content: Content, reply: Option<&str>| -> Vec<String> {
        a.gateway_or_cloud_send(&user(), &content, reply, "")
            .iter()
            .map(|r| {
                assert_eq!(r.url, CLOUD_MESSAGES);
                assert!(r.authorized);
                show(&r.body)
            })
            .collect()
    };
    let head = "messaging_product='whatsapp' to='+39'";
    let tail = "context={message_id='q'}";
    assert_eq!(
        bodies(voice("v"), Some("q")),
        [format!("{{{head} type='audio' audio={{link='v'}} {tail}}}")]
    );
    assert_eq!(
        bodies(voice("v"), Some("")),
        [format!("{{{head} type='audio' audio={{link='v'}}}}")]
    );
    assert_eq!(
        bodies(image("i", None), None),
        [format!("{{{head} type='image' image={{link='i' caption=''}}}}")]
    );
    assert_eq!(
        bodies(
            ChannelContent::File { url: "f".to_string(), filename: "a.pdf".to_string() },
            Some("q")
        ),
        [format!("{{{head} type='document' document={{link='f' filename='a.pdf'}} {tail}}}")]
    );
    let place = ChannelContent::Location { lat: 45.5f64.to_bits(), lon: (-9.25f64).to_bits() };
    assert_eq!(
        bodies(place, Some("q")),
        [format!(
            "{{{head} type='location' location={{latitude=45.5 longitude=-9.25}} {tail}}}"
        )]
    );
    assert_eq!(
        bodies(text("t"), Some("q")),
        [format!("{{{head} type='text' text={{body='t'}} {tail}}}")]
    );
    assert_eq!(
        bodies(text("t"), None),
        [format!("{{{head} type='text' text={{body='t'}}}}")]
    );
    assert_eq!(
        bodies(ChannelContent::Sticker { rest: () }, None),
        [format!("{{{head} type='text' text={{body='(Unsupported content type)'}}}}")]
    );
    assert_eq!(
        bodies(ChannelContent::Audio { url: "a".to_string(), caption: None, rest: () }, None),
        [format!("{{{head} type='text' text={{body='(Unsupported content type)'}}}}")]
    );
}

fn file_data(mime_type: &str, filename: &str) -> Content {
    ChannelContent::FileData {
        data: vec![1, 2, 3],
        mime_type: mime_type.to_string(),
        filename: filename.to_string(),
    }
}

#[test]
fn audio_bytes_are_spooled_for_the_gateway() {
    let g = gateway();
    let note = file_data("audio/ogg; codecs=opus", "n.ogg");
    let path = g.spool_path(&note, "u1").unwrap();
    assert_eq!(path, "/tmp/librefang_audio_out/u1.ogg");
    let all = g.gateway_or_cloud_send(&user(), &note, Some("q"), &path);
    assert_eq!(all.len(), 1);
    assert_eq!(all[0].url, "http://127.0.0.1:3009/message/send-audio");
    assert_eq!(
        show(&all[0].body),
        "{to='+39' audio_url='file:///tmp/librefang_audio_out/u1.ogg' ptt=true reply_to='q'}"
    );
    let song = file_data("audio/mpeg", "dir/song.mp3");
    assert_eq!(g.spool_path(&song, "u2").unwrap(), "/tmp/librefang_audio_out/u2.mp3");
    let all = g.gateway_or_cloud_send(&user(), &song, None, "/x");
    assert_eq!(show(&all[0].body), "{to='+39' audio_url='file:///x' ptt=false}");
    assert_eq!(
        g.spool_path(&file_data("audio/wav", "noext"), "u3").unwrap(),
        "/tmp/librefang_audio_out/u3.bin"
    );
    for odd in ["a.b/c", "a.", ".mp3", "a.m p", "a.è"] {
        assert_eq!(
            g.spool_path(&file_data("audio/wav", odd), "u4").unwrap(),
            "/tmp/librefang_audio_out/u4.bin"
        );
    }
}

#[test]
fn other_bytes_are_not_spooled() {
    let g = gateway();
    let pdf = file_data("application/pdf", "a.pdf");
    assert_eq!(g.spool_path(&pdf, "u"), None);
    assert_eq!(g.spool_path(&voice("v"), "u"), None);
    let all = g.gateway_or_cloud_send(&user(), &pdf, None, "");
    assert_eq!(show(&all[0].body), "{to='+39' text='(Unsupported content type in Web mode)'}");
    let note = file_data("audio/ogg", "n.ogg");
    assert_eq!(adapter(vec![]).spool_path(&note, "u"), None);
    let all = adapter(vec![]).gateway_or_cloud_send(&user(), &note, None, "");
    assert_eq!(
        all[0].body.get("text").unwrap().text_at("body"),
        Some("(Unsupported content type)")
    );
}

#[test]
fn failures_matter_by_content() {
    let a = adapter(vec![]);
    let kind = |content: Content| a.gateway_or_cloud_send(&user(), &content, None, "")[0].on_failure;
    assert_eq!(kind(text("t")), OnFailure::CloudText);
    assert_eq!(kind(voice("v")), OnFailure::CloudVoice);
    assert_eq!(kind(image("i", None)), OnFailure::Ignore);
    assert_eq!(kind(ChannelContent::Location { lat: 0, lon: 0 }), OnFailure::Ignore);
}

fn field<'a>(r: &'a Request, name: &str) -> Option<&'a str> {
    r.body.text_at(name)
}

#[test]
fn long_texts_are_delivered_whole() {
    let long: String = (0..MAX_MESSAGE_LEN * 2 + 10)
        .map(|i| if i % 7 == 0 { 'è' } else { (b'a' + (i % 26) as u8) as char })
        .collect();
    let all = gateway().gateway_or_cloud_send(&user(), &text(&long), Some("q"), "");
    assert_eq!(all.len(), 3);
    let joined: String = all.iter().map(|r| field(r, "text").unwrap()).collect();
    assert_eq!(joined, long);
    assert!(all.iter().all(|r| field(r, "text").unwrap().chars().count() <= MAX_MESSAGE_LEN));
    assert_eq!(field(&all[0], "reply_to"), Some("q"));
    assert!(all[1..].iter().all(|r| field(r, "reply_to").is_none()));

    let all = adapter(vec![]).api_send_message("+39", &long, Some("q"));
    assert_eq!(all.len(), 3);
    let joined: String =
        all.iter().map(|r| r.body.get("text").unwrap().text_at("body").unwrap()).collect();
    assert_eq!(joined, long);
    assert_eq!(all[0].body.get("context").unwrap().text_at("message_id"), Some("q"));
    assert!(all[1..].iter().all(|r| r.body.get("context").is_none()));
}

#[test]
fn pieces_are_posted_one_by_one() {
    let pieces = vec!["a".to_string(), "b".to_string()];
    let all = gateway_send_pieces("http://g", "+39", &pieces, Some("q"));
    let bodies: Vec<String> = all.iter().map(|r| show(&r.body)).collect();
    assert_eq!(bodies, ["{to='+39' text='a' reply_to='q'}", "{to='+39' text='b'}"]);
    let all = adapter(vec![]).api_send_pieces("+39", &pieces, Some("q"));
    assert_eq!(all.len(), 2);
    assert_eq!(all[1].body.get("text").unwrap().text_at("body"), Some("b"));
    assert!(gateway_send_pieces("http://g", "+39", &vec![], Some("q")).is_empty());
}

#[test]
fn an_empty_text_is_one_post() {
    assert_eq!(gateway().gateway_or_cloud_send(&user(), &text(""), None, "").len(), 1);
    assert_eq!(adapter(vec![]).api_send_message("+39", "", None).len(), 1);
}

#[test]
fn uploaded_voice_note() {
    let a = adapter(vec![]);
    let upload = a.api_upload_media(&[1, 2], "audio/ogg; codecs=opus");
    assert_eq!(upload.url, "https://graph.facebook.com/v21.0/12345/media");
    assert_eq!(upload.messaging_product, "whatsapp");
    assert_eq!(upload.file_name, "voice.ogg");
    assert!(upload.authorized);
    assert_eq!(upload.text_field, "messaging_product");
    assert_eq!(upload.file_field, "file");
    assert_eq!(upload.mime_type, "audio/ogg; codecs=opus");
    assert_eq!(upload.data, [1, 2]);
    let r = a.send_voice("+39", "m1");
    assert_eq!(r.url, CLOUD_MESSAGES);
    assert!(r.authorized);
    assert_eq!(r.on_failure, OnFailure::CloudUploadedVoice);
    assert_eq!(
        show(&r.body),
        "{messaging_product='whatsapp' to='+39' type='audio' audio={id='m1'}}"
    );
}

#[test]
fn media_ids_are_read() {
    assert_eq!(uploaded_media_id(b"{\"id\": \"m1\"}"), Ok("m1".to_string()));
    assert_eq!(uploaded_media_id(b"{\"id\": 7}"), Err(UploadError::MissingId));
    assert_eq!(uploaded_media_id(b"[]"), Err(UploadError::MissingId));
    assert_eq!(uploaded_media_id(b"{"), Err(UploadError::NotJson));
    assert_eq!(
        media_id(&Json::Object(vec![("id".to_string(), Json::Text("x".to_string()))])),
        Ok("x".to_string())
    );
    assert_eq!(
        UploadError::MissingId.message(),
        "WhatsApp media upload: missing 'id' in response"
    );
    assert_eq!(UploadError::NotJson.message(), "error decoding response body");
}

#[test]
fn read_receipt() {
    let r = adapter(vec![]).api_mark_read("wamid.1");
    assert_eq!(r.url, CLOUD_MESSAGES);
    assert!(r.authorized);
    assert_eq!(r.on_failure, OnFailure::Ignore);
    assert_eq!(
        show(&r.body),
        "{messaging_product='whatsapp' status='read' message_id='wamid.1'}"
    );
}

#[test]
fn reasons_are_read_out_of_bodies() {
    let reason = |body: &str| extract_gateway_error_reason(body);
    assert_eq!(reason("{\"error\":\"missing to\"}"), Some("missing to".to_string()));
    assert_eq!(
        reason(" \n{\"success\":false,\"error\":\"not connected\"}\n"),
        Some("not connected".to_string())
    );
    assert_eq!(reason("{\"error\":{\"code\":1}}"), None);
    assert_eq!(reason("{\"message\":\"x\"}"), None);
    assert_eq!(reason("Bad Gateway"), None);
    assert_eq!(reason(""), None);
    let parsed = parse_text("{\"error\":\"r\"}").unwrap();
    assert_eq!(error_reason(&parsed), Some("r".to_string()));
    assert_eq!(error_reason(&Json::Null), None);
}

#[test]
fn failures_are_reported() {
    let body = "{\"error\":\"r\"}";
    let report = |kind| failure_message(kind, "500 Internal Server Error", body);
    let some = |s: &str| Some(s.to_string());
    assert_eq!(report(OnFailure::Ignore), None);
    assert_eq!(
        report(OnFailure::CloudText),
        some("WhatsApp API error 500 Internal Server Error: {\"error\":\"r\"}")
    );
    assert_eq!(
        report(OnFailure::CloudUploadedVoice),
        some("WhatsApp send_voice error 500 Internal Server Error: {\"error\":\"r\"}")
    );
    assert_eq!(
        report(OnFailure::CloudUpload),
        some("WhatsApp media upload error 500 Internal Server Error: {\"error\":\"r\"}")
    );
    assert_eq!(report(OnFailure::CloudVoice), some("WhatsApp send failed: r"));
    assert_eq!(report(OnFailure::GatewayText), some("WhatsApp send failed: r"));
    assert_eq!(report(OnFailure::GatewayImage), some("WhatsApp send failed: r"));
    assert_eq!(report(OnFailure::GatewayAudio), some("WhatsApp send failed: r"));

    let bare = |kind| failure_with_reason(kind, "502", "x", None);
    assert_eq!(bare(OnFailure::CloudVoice), some("WhatsApp send failed: voice send failed"));
    assert_eq!(
        bare(OnFailure::GatewayText),
        some("WhatsApp send failed: gateway request failed")
    );
    assert_eq!(
        bare(OnFailure::GatewayImage),
        some("WhatsApp send failed: gateway image send failed")
    );
    assert_eq!(
        bare(OnFailure::GatewayAudio),
        some("WhatsApp send failed: gateway audio send failed")
    );
}

#[test]
fn gateway_failures_hide_the_status() {
    let a = failure_message(OnFailure::GatewayText, "500 x", "<html>");
    let b = failure_message(OnFailure::GatewayText, "404 y", "{}");
    assert_eq!(a, b);
}

#[test]
fn a_delivery_goes_on_until_a_failure() {
    let long = "x".repeat(MAX_MESSAGE_LEN * 2 + 1);
    let all = gateway().gateway_or_cloud_send(&user(), &text(&long), None, "");
    let mut d = Delivery::new(all);
    assert_eq!(field(d.next_request().unwrap(), "text").unwrap().len(), MAX_MESSAGE_LEN);
    assert!(d.on_reply(true, "200 OK", "").is_ok());
    assert!(d.next_request().is_some());
    assert_eq!(
        d.on_reply(false, "500", "oops"),
        Err("WhatsApp send failed: gateway request failed".to_string())
    );
    assert!(d.next_request().is_none());

    let all = adapter(vec![]).gateway_or_cloud_send(&user(), &image("i", None), None, "");
    let mut d = Delivery::new(all);
    assert!(d.on_reply(false, "500", "oops").is_ok());
    assert!(d.next_request().is_none());
    assert!(Delivery::new(vec![]).next_request().is_none());
}
