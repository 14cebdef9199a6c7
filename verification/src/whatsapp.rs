//! The WhatsApp channel: which messages are answered, what is posted for an outgoing message, and
//! what a reply to a post means.
//!
//! There are two modes. With a gateway URL, everything goes to a local gateway process; without
//! one, to the Cloud API. The network is the caller's: it makes the posts of a [`Delivery`] one
//! by one and hands back the replies.

use vstd::prelude::*;
use vstd::string::*;
use vstd::utf8::*;

use crate::audio_normalizer;
use crate::file_names;
use crate::json;
use crate::json::{Json, JsonTree};
use crate::text;
use crate::types;
use crate::types::{ChannelContent, ChannelType, ChannelUser, DmPolicy, GroupPolicy};

verus! {

/// The longest text, in characters, that goes into one message.
pub const MAX_MESSAGE_LEN: usize = 4096;

/// Where the Cloud API is found; the phone number ID follows.
pub const CLOUD_API: &'static str = "https://graph.facebook.com/v21.0/";

/// Where the bytes of audio files are written for the gateway.
pub const SPOOL_DIR: &'static str = "/tmp/librefang_audio_out/";

/// The adapter's settings.
#[derive(Debug)]
pub struct WhatsAppAdapter {
    phone_number_id: String,
    webhook_port: u16,
    allowed_users: Vec<String>,
    gateway_url: Option<String>,
    account_id: Option<String>,
    dm_policy: DmPolicy,
    group_policy: GroupPolicy,
    bot_phone: Option<String>,
    bot_name: Option<String>,
}

/// What an adapter is set to.
#[verifier::ext_equal]
pub struct Settings {
    /// The phone number ID of the Cloud API.
    pub phone_number_id: Seq<char>,
    /// The port for webhook callbacks.
    pub webhook_port: u16,
    /// The phone numbers that are allowed; none means all.
    pub allowed_users: Seq<Seq<char>>,
    /// The gateway, in gateway mode.
    pub gateway_url: Option<Seq<char>>,
    /// The account, where several bots run side by side.
    pub account_id: Option<Seq<char>>,
    pub dm_policy: DmPolicy,
    pub group_policy: GroupPolicy,
    /// The bot's own number, for mentions in groups.
    pub bot_phone: Option<Seq<char>>,
    /// The bot's display name, for mentions in groups.
    pub bot_name: Option<Seq<char>>,
}

impl View for WhatsAppAdapter {
    type V = Settings;

    closed spec fn view(&self) -> Settings {
        Settings {
            phone_number_id: self.phone_number_id@,
            webhook_port: self.webhook_port,
            allowed_users: text::texts(self.allowed_users@),
            gateway_url: text::opt_string(self.gateway_url),
            account_id: text::opt_string(self.account_id),
            dm_policy: self.dm_policy,
            group_policy: self.group_policy,
            bot_phone: text::opt_string(self.bot_phone),
            bot_name: text::opt_string(self.bot_name),
        }
    }
}

// ---------------------------------------------------------------------------
// Which messages are answered
// ---------------------------------------------------------------------------

/// Whether a phone number is allowed: it is listed, or nothing is.
pub open spec fn allowed(users: Seq<Seq<char>>, phone: Seq<char>) -> bool {
    users.len() == 0 || users.contains(phone)
}

/// Whether a lowercased text mentions the bot: by its number, by `@` and its number without the
/// leading plus signs, or by its lowercased name.
pub open spec fn mentions(
    lower: Seq<char>,
    phone: Option<Seq<char>>,
    lower_name: Option<Seq<char>>,
) -> bool {
    ||| (phone matches Some(p) && (text::occurs_in(lower, p) || text::occurs_in(
        lower,
        seq!['@'] + text::without_leading(p, '+'),
    )))
    ||| (lower_name matches Some(n) && text::occurs_in(lower, n))
}

/// What `f` makes of an optional text.
pub open spec fn opt_mapped(
    s: Option<Seq<char>>,
    f: spec_fn(Seq<char>) -> Seq<char>,
) -> Option<Seq<char>> {
    match s {
        Some(t) => Some(f(t)),
        None => None,
    }
}

/// Whether a message in a group or a direct message is answered, given whether it mentions the
/// bot.
pub open spec fn handled(
    s: Settings,
    is_group: bool,
    message: Seq<char>,
    sender_phone: Seq<char>,
    mentioned: bool,
) -> bool {
    if is_group {
        match s.group_policy {
            GroupPolicy::All => true,
            GroupPolicy::MentionOnly => mentioned,
            GroupPolicy::CommandsOnly => seq!['/'].is_prefix_of(text::trimmed_start(message)),
            GroupPolicy::Ignore => false,
        }
    } else {
        match s.dm_policy {
            DmPolicy::Respond => true,
            DmPolicy::AllowedOnly => allowed(s.allowed_users, sender_phone),
            DmPolicy::Ignore => false,
        }
    }
}

/// Whether a text mentions the bot.
pub open spec fn mentioned_in(s: Settings, message: Seq<char>) -> bool {
    mentions(
        text::unicode_lowercase(message),
        s.bot_phone,
        opt_mapped(s.bot_name, |n: Seq<char>| text::unicode_lowercase(n)),
    )
}

/// Whether an ASCII text mentions a bot whose name is ASCII.
pub open spec fn mentioned_in_ascii(s: Settings, message: Seq<char>) -> bool {
    mentions(
        text::ascii_lowered(message),
        s.bot_phone,
        opt_mapped(s.bot_name, |n: Seq<char>| text::ascii_lowered(n)),
    )
}

/// Whether a text and the bot's name are both ASCII.
pub open spec fn all_ascii(s: Settings, message: Seq<char>) -> bool {
    is_ascii_chars(message) && (s.bot_name matches Some(n) ==> is_ascii_chars(n))
}

/// Whether a lowercased text mentions the bot.
pub fn mentions_bot(lower: &str, phone: Option<&str>, lower_name: Option<&str>) -> (r: bool)
    ensures
        r == mentions(lower@, text::opt_text(phone), text::opt_text(lower_name)),
{
    if let Some(p) = phone {
        if text::contains(lower, p) {
            return true;
        }
        proof {
            reveal_strlit("@");
            assert("@"@ == seq!['@']);
        }
        let at = text::concat2("@", text::drop_leading(p, '+').as_str());
        if text::contains(lower, at.as_str()) {
            return true;
        }
    }
    if let Some(n) = lower_name {
        if text::contains(lower, n) {
            return true;
        }
    }
    false
}

impl WhatsAppAdapter {
    /// An adapter for the Cloud API that answers all direct messages, and in groups those that
    /// mention the bot.
    pub fn new(
        phone_number_id: String,
        webhook_port: u16,
        allowed_users: Vec<String>,
    ) -> (r: WhatsAppAdapter)
        ensures
            r@ == (Settings {
                phone_number_id: phone_number_id@,
                webhook_port,
                allowed_users: text::texts(allowed_users@),
                gateway_url: None,
                account_id: None,
                dm_policy: DmPolicy::Respond,
                group_policy: GroupPolicy::MentionOnly,
                bot_phone: None,
                bot_name: None,
            }),
    {
        WhatsAppAdapter {
            phone_number_id,
            webhook_port,
            allowed_users,
            gateway_url: None,
            account_id: None,
            dm_policy: DmPolicy::default(),
            group_policy: GroupPolicy::default(),
            bot_phone: None,
            bot_name: None,
        }
    }

    /// The same adapter with this account.
    pub fn with_account_id(self, account_id: Option<String>) -> (r: WhatsAppAdapter)
        ensures
            r@ == (Settings { account_id: text::opt_string(account_id), ..self@ }),
    {
        let mut r = self;
        r.account_id = account_id;
        r
    }

    /// The same adapter with this gateway. An empty URL is none: the Cloud API is used then.
    pub fn with_gateway(self, gateway_url: Option<String>) -> (r: WhatsAppAdapter)
        ensures
            r@ == (Settings {
                gateway_url: nonempty(text::opt_string(gateway_url)),
                ..self@
            }),
    {
        let mut r = self;
        r.gateway_url = match gateway_url {
            Some(u) => if u.as_str().is_empty() {
                None
            } else {
                Some(u)
            },
            None => None,
        };
        r
    }

    /// The same adapter with this policy for direct messages.
    pub fn with_dm_policy(self, policy: DmPolicy) -> (r: WhatsAppAdapter)
        ensures
            r@ == (Settings { dm_policy: policy, ..self@ }),
    {
        let mut r = self;
        r.dm_policy = policy;
        r
    }

    /// The same adapter with this policy for groups.
    pub fn with_group_policy(self, policy: GroupPolicy) -> (r: WhatsAppAdapter)
        ensures
            r@ == (Settings { group_policy: policy, ..self@ }),
    {
        let mut r = self;
        r.group_policy = policy;
        r
    }

    /// The same adapter with this number for mentions in groups.
    pub fn with_bot_phone(self, phone: Option<String>) -> (r: WhatsAppAdapter)
        ensures
            r@ == (Settings { bot_phone: text::opt_string(phone), ..self@ }),
    {
        let mut r = self;
        r.bot_phone = phone;
        r
    }

    /// The same adapter with this display name for mentions in groups.
    pub fn with_bot_name(self, name: Option<String>) -> (r: WhatsAppAdapter)
        ensures
            r@ == (Settings { bot_name: text::opt_string(name), ..self@ }),
    {
        let mut r = self;
        r.bot_name = name;
        r
    }

    /// Whether everything goes through a gateway.
    pub fn is_gateway_mode(&self) -> (r: bool)
        ensures
            r == self@.gateway_url is Some,
    {
        self.gateway_url.is_some()
    }

    /// The port for webhook callbacks.
    pub fn webhook_port(&self) -> (r: u16)
        ensures
            r == self@.webhook_port,
    {
        self.webhook_port
    }

    /// The name of the channel.
    pub fn name(&self) -> (r: &'static str)
        ensures
            r@ == "whatsapp"@,
    {
        "whatsapp"
    }

    /// The kind of the channel.
    pub fn channel_type(&self) -> (r: ChannelType)
        ensures
            r == ChannelType::WhatsApp,
    {
        ChannelType::WhatsApp
    }

    /// Whether a phone number is allowed.
    pub fn is_allowed(&self, phone: &str) -> (r: bool)
        ensures
            r == allowed(self@.allowed_users, phone@),
    {
        if self.allowed_users.len() == 0 {
            return true;
        }
        for i in 0..self.allowed_users.len()
            invariant
                forall|k: int| 0 <= k < i ==> (#[trigger] self.allowed_users@[k])@ != phone@,
        {
            if text::same_text(self.allowed_users[i].as_str(), phone) {
                assert(self@.allowed_users[i as int] == phone@);
                return true;
            }
        }
        proof {
            if self@.allowed_users.contains(phone@) {
                let k = choose|k: int|
                    0 <= k < self@.allowed_users.len() && self@.allowed_users[k] == phone@;
                assert(self.allowed_users@[k]@ != phone@);
            }
        }
        false
    }

    /// Whether a text mentions the bot. Nothing marks a mention, so its number or its name
    /// anywhere in the text counts, in either case of letters.
    pub fn is_bot_mentioned(&self, message: &str) -> (r: bool)
        ensures
            r == mentioned_in(self@, message@),
            all_ascii(self@, message@) ==> r == mentioned_in_ascii(self@, message@),
    {
        let lower = text::to_lowercase(message);
        let phone = text::as_text(&self.bot_phone);
        match &self.bot_name {
            Some(n) => {
                let name = text::to_lowercase(n.as_str());
                mentions_bot(lower.as_str(), phone, Some(name.as_str()))
            },
            None => mentions_bot(lower.as_str(), phone, None),
        }
    }

    /// Whether a message is to be answered. In a group the group's policy decides, in a direct
    /// message the one for those.
    pub fn should_handle_message(&self, is_group: bool, message: &str, sender_phone: &str) -> (r:
        bool)
        ensures
            r == handled(
                self@,
                is_group,
                message@,
                sender_phone@,
                mentioned_in(self@, message@),
            ),
            all_ascii(self@, message@) ==> r == handled(
                self@,
                is_group,
                message@,
                sender_phone@,
                mentioned_in_ascii(self@, message@),
            ),
    {
        if is_group {
            match self.group_policy {
                GroupPolicy::All => true,
                GroupPolicy::MentionOnly => self.is_bot_mentioned(message),
                GroupPolicy::CommandsOnly => {
                    proof {
                        reveal_strlit("/");
                        assert("/"@ == seq!['/']);
                    }
                    text::starts_with(text::trim_start(message).as_str(), "/")
                },
                GroupPolicy::Ignore => false,
            }
        } else {
            match self.dm_policy {
                DmPolicy::Respond => true,
                DmPolicy::AllowedOnly => self.is_allowed(sender_phone),
                DmPolicy::Ignore => false,
            }
        }
    }
}

/// An optional text that is not empty.
pub open spec fn nonempty(s: Option<Seq<char>>) -> Option<Seq<char>> {
    match s {
        Some(t) => if t.len() > 0 {
            Some(t)
        } else {
            None
        },
        None => None,
    }
}

// ---------------------------------------------------------------------------
// What is posted
// ---------------------------------------------------------------------------

/// What a reply other than a success means for a post.
#[derive(Debug, Clone, Copy, PartialEq, Eq, Structural)]
pub enum OnFailure {
    /// Nothing: the post counts as made.
    Ignore,
    /// The text was not delivered by the Cloud API.
    CloudText,
    /// The voice note was not delivered by the Cloud API.
    CloudVoice,
    /// The uploaded voice note was not delivered by the Cloud API.
    CloudUploadedVoice,
    /// The media were not taken by the Cloud API.
    CloudUpload,
    /// The text was not delivered by the gateway.
    GatewayText,
    /// The image was not delivered by the gateway.
    GatewayImage,
    /// The audio was not delivered by the gateway.
    GatewayAudio,
}

/// A post of a JSON body.
#[derive(Debug)]
pub struct Request {
    pub url: String,
    /// Whether the access token goes with it.
    pub authorized: bool,
    pub body: Json,
    pub on_failure: OnFailure,
}

/// What a request says.
pub struct Post {
    pub url: Seq<char>,
    pub authorized: bool,
    pub body: JsonTree,
    pub on_failure: OnFailure,
}

impl View for Request {
    type V = Post;

    open spec fn view(&self) -> Post {
        Post {
            url: self.url@,
            authorized: self.authorized,
            body: self.body@,
            on_failure: self.on_failure,
        }
    }
}

/// What requests say.
pub open spec fn posts(requests: Seq<Request>) -> Seq<Post> {
    Seq::new(requests.len(), |i: int| requests[i]@)
}

/// The address of a Cloud API endpoint.
pub open spec fn cloud_url(phone_number_id: Seq<char>, endpoint: Seq<char>) -> Seq<char> {
    CLOUD_API@ + phone_number_id + endpoint
}

/// The address of a gateway endpoint.
pub open spec fn gateway_endpoint(gateway_url: Seq<char>, endpoint: Seq<char>) -> Seq<char> {
    text::without_trailing(gateway_url, '/') + endpoint
}

/// The members of a gateway body, with the message that is answered where there is one.
pub open spec fn with_reply_to(
    members: Seq<(Seq<char>, JsonTree)>,
    reply_to: Option<Seq<char>>,
) -> Seq<(Seq<char>, JsonTree)> {
    match nonempty(reply_to) {
        Some(id) => members.push(("reply_to"@, JsonTree::Text(id))),
        None => members,
    }
}

/// A text for the gateway.
pub open spec fn gateway_text(
    gateway_url: Seq<char>,
    to: Seq<char>,
    message: Seq<char>,
    reply_to: Option<Seq<char>>,
) -> Post {
    Post {
        url: gateway_endpoint(gateway_url, "/message/send"@),
        authorized: false,
        body: JsonTree::Object(
            with_reply_to(
                seq![("to"@, JsonTree::Text(to)), ("text"@, JsonTree::Text(message))],
                reply_to,
            ),
        ),
        on_failure: OnFailure::GatewayText,
    }
}

/// An image for the gateway.
pub open spec fn gateway_image(
    gateway_url: Seq<char>,
    to: Seq<char>,
    image_url: Seq<char>,
    caption: Option<Seq<char>>,
    reply_to: Option<Seq<char>>,
) -> Post {
    Post {
        url: gateway_endpoint(gateway_url, "/message/send-image"@),
        authorized: false,
        body: JsonTree::Object(
            with_reply_to(
                seq![
                    ("to"@, JsonTree::Text(to)),
                    ("image_url"@, JsonTree::Text(image_url)),
                    ("caption"@, JsonTree::Text(or_empty(caption))),
                ],
                reply_to,
            ),
        ),
        on_failure: OnFailure::GatewayImage,
    }
}

/// An audio file for the gateway, or a voice note where `ptt` says so.
pub open spec fn gateway_audio(
    gateway_url: Seq<char>,
    to: Seq<char>,
    audio_url: Seq<char>,
    ptt: bool,
    reply_to: Option<Seq<char>>,
) -> Post {
    Post {
        url: gateway_endpoint(gateway_url, "/message/send-audio"@),
        authorized: false,
        body: JsonTree::Object(
            with_reply_to(
                seq![
                    ("to"@, JsonTree::Text(to)),
                    ("audio_url"@, JsonTree::Text(audio_url)),
                    ("ptt"@, JsonTree::Bool(ptt)),
                ],
                reply_to,
            ),
        ),
        on_failure: OnFailure::GatewayAudio,
    }
}

/// An optional text, or nothing.
pub open spec fn or_empty(s: Option<Seq<char>>) -> Seq<char> {
    match s {
        Some(t) => t,
        None => Seq::empty(),
    }
}

/// A message of type `kind` for the Cloud API.
pub open spec fn cloud_message(
    phone_number_id: Seq<char>,
    to: Seq<char>,
    kind: Seq<char>,
    payload: Seq<(Seq<char>, JsonTree)>,
    reply_to: Option<Seq<char>>,
    on_failure: OnFailure,
) -> Post {
    let members = seq![
        ("messaging_product"@, JsonTree::Text("whatsapp"@)),
        ("to"@, JsonTree::Text(to)),
        ("type"@, JsonTree::Text(kind)),
        (kind, JsonTree::Object(payload)),
    ];
    Post {
        url: cloud_url(phone_number_id, "/messages"@),
        authorized: true,
        body: JsonTree::Object(
            match nonempty(reply_to) {
                Some(id) => members.push(
                    (
                        "context"@,
                        JsonTree::Object(seq![("message_id"@, JsonTree::Text(id))]),
                    ),
                ),
                None => members,
            },
        ),
        on_failure,
    }
}

/// The pieces that a text is sent in.
pub open spec fn pieces_of(message: Seq<char>) -> Seq<Seq<char>> {
    types::chunks_of(message, MAX_MESSAGE_LEN as nat)
}

/// A text for the Cloud API, one message per piece; only the first one answers a message.
pub open spec fn cloud_texts(
    phone_number_id: Seq<char>,
    to: Seq<char>,
    pieces: Seq<Seq<char>>,
    reply_to: Option<Seq<char>>,
) -> Seq<Post> {
    Seq::new(
        pieces.len(),
        |i: int|
            cloud_message(
                phone_number_id,
                to,
                "text"@,
                seq![("body"@, JsonTree::Text(pieces[i]))],
                if i == 0 {
                    reply_to
                } else {
                    None
                },
                OnFailure::CloudText,
            ),
    )
}

/// A text for the gateway, one message per piece; only the first one answers a message.
pub open spec fn gateway_texts(
    gateway_url: Seq<char>,
    to: Seq<char>,
    pieces: Seq<Seq<char>>,
    reply_to: Option<Seq<char>>,
) -> Seq<Post> {
    Seq::new(
        pieces.len(),
        |i: int|
            gateway_text(
                gateway_url,
                to,
                pieces[i],
                if i == 0 {
                    reply_to
                } else {
                    None
                },
            ),
    )
}

/// The text that stands for a content that the gateway has no endpoint for.
pub open spec fn gateway_fallback_text<P>(content: ChannelContent<P>) -> Seq<char> {
    match content {
        ChannelContent::Text(t) => t@,
        ChannelContent::File { filename, .. } => "(File: "@ + filename@
            + " — not supported in Web mode)"@,
        _ => "(Unsupported content type in Web mode)"@,
    }
}

/// Whether a MIME type is one of audio.
pub open spec fn is_audio_mime(mime: Seq<char>) -> bool {
    "audio/"@.is_prefix_of(mime)
}

/// Whether `c` is an ASCII letter or digit.
pub open spec fn is_alphanumeric(c: char) -> bool {
    'a' <= c <= 'z' || 'A' <= c <= 'Z' || '0' <= c <= '9'
}

/// Whether an extension is made of ASCII letters and digits.
pub open spec fn is_plain_extension(ext: Seq<char>) -> bool {
    ext.len() > 0 && forall|i: int| 0 <= i < ext.len() ==> is_alphanumeric(#[trigger] ext[i])
}

/// The extension of the file that the bytes of a file called `filename` are written to: its own,
/// where that is a plain one.
pub open spec fn spool_extension(filename: Seq<char>) -> Seq<char> {
    let ext = file_names::extension_or_empty(Some(filename));
    if is_plain_extension(ext) {
        ext
    } else {
        "bin"@
    }
}

/// Where the bytes of a content have to be before it can be posted, under a name made of `id`:
/// an audio file that travels with its bytes reaches the gateway through the file system.
pub open spec fn spool_path_for<P>(
    s: Settings,
    content: ChannelContent<P>,
    id: Seq<char>,
) -> Option<Seq<char>> {
    match content {
        ChannelContent::FileData { mime_type, filename, .. } => if s.gateway_url is Some
            && is_audio_mime(mime_type@) {
            Some(SPOOL_DIR@ + id + seq!['.'] + spool_extension(filename@))
        } else {
            None
        },
        _ => None,
    }
}

/// What is posted to the gateway for a content, whose bytes are at `spooled` where
/// [`spool_path_for`] asks for it.
pub open spec fn gateway_posts<P>(
    gateway_url: Seq<char>,
    to: Seq<char>,
    content: ChannelContent<P>,
    reply_to: Option<Seq<char>>,
    spooled: Seq<char>,
) -> Seq<Post> {
    match content {
        ChannelContent::FileData { mime_type, .. } if is_audio_mime(mime_type@) => seq![
            gateway_audio(
                gateway_url,
                to,
                "file://"@ + spooled,
                audio_normalizer::is_voice_note_mime(mime_type@),
                reply_to,
            ),
        ],
        ChannelContent::Voice { url, .. } => seq![
            gateway_audio(gateway_url, to, url@, true, reply_to),
        ],
        ChannelContent::Audio { url, .. } => seq![
            gateway_audio(gateway_url, to, url@, false, reply_to),
        ],
        ChannelContent::Image { url, caption, .. } => seq![
            gateway_image(gateway_url, to, url@, text::opt_string(caption), reply_to),
        ],
        _ => gateway_texts(
            gateway_url,
            to,
            pieces_of(gateway_fallback_text(content)),
            reply_to,
        ),
    }
}

/// What is posted to the Cloud API for a content.
pub open spec fn cloud_posts<P>(
    phone_number_id: Seq<char>,
    to: Seq<char>,
    content: ChannelContent<P>,
    reply_to: Option<Seq<char>>,
) -> Seq<Post> {
    match content {
        ChannelContent::Text(t) => cloud_texts(phone_number_id, to, pieces_of(t@), reply_to),
        ChannelContent::Voice { url, .. } => seq![
            cloud_message(
                phone_number_id,
                to,
                "audio"@,
                seq![("link"@, JsonTree::Text(url@))],
                reply_to,
                OnFailure::CloudVoice,
            ),
        ],
        ChannelContent::Image { url, caption, .. } => seq![
            cloud_message(
                phone_number_id,
                to,
                "image"@,
                seq![
                    ("link"@, JsonTree::Text(url@)),
                    ("caption"@, JsonTree::Text(or_empty(text::opt_string(caption)))),
                ],
                reply_to,
                OnFailure::Ignore,
            ),
        ],
        ChannelContent::File { url, filename } => seq![
            cloud_message(
                phone_number_id,
                to,
                "document"@,
                seq![
                    ("link"@, JsonTree::Text(url@)),
                    ("filename"@, JsonTree::Text(filename@)),
                ],
                reply_to,
                OnFailure::Ignore,
            ),
        ],
        ChannelContent::Location { lat, lon } => seq![
            cloud_message(
                phone_number_id,
                to,
                "location"@,
                seq![
                    ("latitude"@, JsonTree::Double(lat)),
                    ("longitude"@, JsonTree::Double(lon)),
                ],
                reply_to,
                OnFailure::Ignore,
            ),
        ],
        _ => cloud_texts(
            phone_number_id,
            to,
            pieces_of("(Unsupported content type)"@),
            reply_to,
        ),
    }
}

/// What is posted for a content.
pub open spec fn planned_posts<P>(
    s: Settings,
    to: Seq<char>,
    content: ChannelContent<P>,
    reply_to: Option<Seq<char>>,
    spooled: Seq<char>,
) -> Seq<Post> {
    match s.gateway_url {
        Some(gateway_url) => gateway_posts(gateway_url, to, content, reply_to, spooled),
        None => cloud_posts(s.phone_number_id, to, content, reply_to),
    }
}

/// Whether an extension is made of ASCII letters and digits.
fn has_plain_extension(ext: &str) -> (r: bool)
    ensures
        r == is_plain_extension(ext@),
{
    let chars = text::chars_of(ext);
    for i in 0..chars.len()
        invariant
            chars@ == ext@,
            forall|k: int| 0 <= k < i ==> is_alphanumeric(#[trigger] ext@[k]),
    {
        let c = chars[i];
        if !(('a' <= c && c <= 'z') || ('A' <= c && c <= 'Z') || ('0' <= c && c <= '9')) {
            assert(!is_alphanumeric(ext@[i as int]));
            return false;
        }
    }
    chars.len() > 0
}

/// The address of a gateway endpoint.
fn gateway_address(gateway_url: &str, endpoint: &str) -> (r: String)
    ensures
        r@ == gateway_endpoint(gateway_url@, endpoint@),
{
    text::concat2(text::drop_trailing(gateway_url, '/').as_str(), endpoint)
}

/// The body of a gateway post: `members`, and the message that is answered where there is one.
fn gateway_body(members: Vec<(String, Json)>, reply_to: Option<&str>) -> (r: Json)
    ensures
        r@ == JsonTree::Object(with_reply_to(json::members_of(members@), text::opt_text(reply_to))),
{
    match reply_to {
        Some(id) => if id.is_empty() {
            Json::object(members)
        } else {
            Json::object(json::with_member(members, "reply_to", Json::text(id)))
        },
        None => Json::object(members),
    }
}

/// No members yet.
fn no_members() -> (r: Vec<(String, Json)>)
    ensures
        json::members_of(r@) == Seq::<(Seq<char>, JsonTree)>::empty(),
{
    let r: Vec<(String, Json)> = Vec::new();
    assert(json::members_of(r@) == Seq::<(Seq<char>, JsonTree)>::empty());
    r
}

/// The post of a text to the gateway.
pub fn gateway_send_message(
    gateway_url: &str,
    to: &str,
    message: &str,
    reply_to_msg_id: Option<&str>,
) -> (r: Request)
    ensures
        r@ == gateway_text(gateway_url@, to@, message@, text::opt_text(reply_to_msg_id)),
{
    let members = json::with_member(no_members(), "to", Json::text(to));
    let members = json::with_member(members, "text", Json::text(message));
    assert(json::members_of(members@) == seq![
        ("to"@, JsonTree::Text(to@)),
        ("text"@, JsonTree::Text(message@)),
    ]);
    Request {
        url: gateway_address(gateway_url, "/message/send"),
        authorized: false,
        body: gateway_body(members, reply_to_msg_id),
        on_failure: OnFailure::GatewayText,
    }
}

/// The post of an image to the gateway.
pub fn gateway_send_image(
    gateway_url: &str,
    to: &str,
    image_url: &str,
    caption: Option<&str>,
    reply_to_msg_id: Option<&str>,
) -> (r: Request)
    ensures
        r@ == gateway_image(
            gateway_url@,
            to@,
            image_url@,
            text::opt_text(caption),
            text::opt_text(reply_to_msg_id),
        ),
{
    let members = json::with_member(no_members(), "to", Json::text(to));
    let members = json::with_member(members, "image_url", Json::text(image_url));
    let members = json::with_member(members, "caption", Json::text(text_or_empty(caption)));
    assert(json::members_of(members@) == seq![
        ("to"@, JsonTree::Text(to@)),
        ("image_url"@, JsonTree::Text(image_url@)),
        ("caption"@, JsonTree::Text(or_empty(text::opt_text(caption)))),
    ]);
    Request {
        url: gateway_address(gateway_url, "/message/send-image"),
        authorized: false,
        body: gateway_body(members, reply_to_msg_id),
        on_failure: OnFailure::GatewayImage,
    }
}

/// The post of an audio file to the gateway, or of a voice note where `ptt` says so. The flag is
/// always there: the gateway would take its absence for a voice note.
pub fn gateway_send_audio(
    gateway_url: &str,
    to: &str,
    audio_url: &str,
    ptt: bool,
    reply_to_msg_id: Option<&str>,
) -> (r: Request)
    ensures
        r@ == gateway_audio(
            gateway_url@,
            to@,
            audio_url@,
            ptt,
            text::opt_text(reply_to_msg_id),
        ),
{
    let members = json::with_member(no_members(), "to", Json::text(to));
    let members = json::with_member(members, "audio_url", Json::text(audio_url));
    let members = json::with_member(members, "ptt", Json::Bool(ptt));
    assert(json::members_of(members@) == seq![
        ("to"@, JsonTree::Text(to@)),
        ("audio_url"@, JsonTree::Text(audio_url@)),
        ("ptt"@, JsonTree::Bool(ptt)),
    ]);
    Request {
        url: gateway_address(gateway_url, "/message/send-audio"),
        authorized: false,
        body: gateway_body(members, reply_to_msg_id),
        on_failure: OnFailure::GatewayAudio,
    }
}

/// An optional text, or nothing.
fn text_or_empty(s: Option<&str>) -> (r: &str)
    ensures
        r@ == or_empty(text::opt_text(s)),
{
    match s {
        Some(t) => t,
        None => {
            proof {
                reveal_strlit("");
                assert(""@ == Seq::<char>::empty());
            }
            ""
        },
    }
}

/// The posts of the pieces of a text to the gateway; only the first one answers a message.
pub fn gateway_send_pieces(
    gateway_url: &str,
    to: &str,
    pieces: &Vec<String>,
    reply_to_msg_id: Option<&str>,
) -> (r: Vec<Request>)
    ensures
        posts(r@) == gateway_texts(
            gateway_url@,
            to@,
            text::texts(pieces@),
            text::opt_text(reply_to_msg_id),
        ),
{
    let ghost cut = text::texts(pieces@);
    let ghost planned = gateway_texts(gateway_url@, to@, cut, text::opt_text(reply_to_msg_id));
    let mut out: Vec<Request> = Vec::new();
    for i in 0..pieces.len()
        invariant
            cut == text::texts(pieces@),
            planned == gateway_texts(gateway_url@, to@, cut, text::opt_text(reply_to_msg_id)),
            posts(out@) == planned.take(i as int),
    {
        let quoted = if i == 0 {
            reply_to_msg_id
        } else {
            None
        };
        let ghost before = posts(out@);
        let piece = gateway_send_message(gateway_url, to, pieces[i].as_str(), quoted);
        let ghost said = piece@;
        assert(cut[i as int] == pieces@[i as int]@);
        out.push(piece);
        assert(posts(out@) == before.push(said));
        assert(planned.take(i + 1) == planned.take(i as int).push(said));
    }
    assert(planned.take(planned.len() as int) == planned);
    out
}

/// The posts of a text to the gateway.
fn gateway_send_text(
    gateway_url: &str,
    to: &str,
    message: &str,
    reply_to_msg_id: Option<&str>,
) -> (r: Vec<Request>)
    ensures
        posts(r@) == gateway_texts(
            gateway_url@,
            to@,
            pieces_of(message@),
            text::opt_text(reply_to_msg_id),
        ),
{
    let pieces = types::split_message(message, MAX_MESSAGE_LEN);
    gateway_send_pieces(gateway_url, to, &pieces, reply_to_msg_id)
}

impl WhatsAppAdapter {
    /// The address of a Cloud API endpoint.
    fn cloud_address(&self, endpoint: &str) -> (r: String)
        ensures
            r@ == cloud_url(self@.phone_number_id, endpoint@),
    {
        text::concat3(CLOUD_API, self.phone_number_id.as_str(), endpoint)
    }

    /// The post of a message of type `kind` to the Cloud API.
    fn cloud_post(
        &self,
        to: &str,
        kind: &str,
        payload: Vec<(String, Json)>,
        reply_to: Option<&str>,
        on_failure: OnFailure,
    ) -> (r: Request)
        ensures
            r@ == cloud_message(
                self@.phone_number_id,
                to@,
                kind@,
                json::members_of(payload@),
                text::opt_text(reply_to),
                on_failure,
            ),
    {
        let members = json::with_member(no_members(), "messaging_product", Json::text("whatsapp"));
        let members = json::with_member(members, "to", Json::text(to));
        let members = json::with_member(members, "type", Json::text(kind));
        let members = json::with_member(members, kind, Json::object(payload));
        assert(json::members_of(members@) == seq![
            ("messaging_product"@, JsonTree::Text("whatsapp"@)),
            ("to"@, JsonTree::Text(to@)),
            ("type"@, JsonTree::Text(kind@)),
            (kind@, JsonTree::Object(json::members_of(payload@))),
        ]);
        let members = match reply_to {
            Some(id) => if id.is_empty() {
                members
            } else {
                let context = json::with_member(no_members(), "message_id", Json::text(id));
                assert(json::members_of(context@) == seq![("message_id"@, JsonTree::Text(id@))]);
                json::with_member(members, "context", Json::object(context))
            },
            None => members,
        };
        Request {
            url: self.cloud_address("/messages"),
            authorized: true,
            body: Json::object(members),
            on_failure,
        }
    }

    /// The posts of the pieces of a text to the Cloud API; only the first one answers a message.
    pub fn api_send_pieces(
        &self,
        to: &str,
        pieces: &Vec<String>,
        reply_to_msg_id: Option<&str>,
    ) -> (r: Vec<Request>)
        ensures
            posts(r@) == cloud_texts(
                self@.phone_number_id,
                to@,
                text::texts(pieces@),
                text::opt_text(reply_to_msg_id),
            ),
    {
        let ghost cut = text::texts(pieces@);
        let ghost planned = cloud_texts(
            self@.phone_number_id,
            to@,
            cut,
            text::opt_text(reply_to_msg_id),
        );
        let mut out: Vec<Request> = Vec::new();
        for i in 0..pieces.len()
            invariant
                cut == text::texts(pieces@),
                planned == cloud_texts(
                    self@.phone_number_id,
                    to@,
                    cut,
                    text::opt_text(reply_to_msg_id),
                ),
                posts(out@) == planned.take(i as int),
        {
            let quoted = if i == 0 {
                reply_to_msg_id
            } else {
                None
            };
            let ghost before = posts(out@);
            let payload = json::with_member(no_members(), "body", Json::text(pieces[i].as_str()));
            assert(json::members_of(payload@) == seq![
                ("body"@, JsonTree::Text(pieces@[i as int]@)),
            ]);
            let piece = self.cloud_post(to, "text", payload, quoted, OnFailure::CloudText);
            let ghost said = piece@;
            assert(cut[i as int] == pieces@[i as int]@);
            out.push(piece);
            assert(posts(out@) == before.push(said));
            assert(planned.take(i + 1) == planned.take(i as int).push(said));
        }
        assert(planned.take(planned.len() as int) == planned);
        out
    }

    /// The posts of a text to the Cloud API.
    pub fn api_send_message(
        &self,
        to: &str,
        message: &str,
        reply_to_msg_id: Option<&str>,
    ) -> (r: Vec<Request>)
        ensures
            posts(r@) == cloud_texts(
                self@.phone_number_id,
                to@,
                pieces_of(message@),
                text::opt_text(reply_to_msg_id),
            ),
    {
        let pieces = types::split_message(message, MAX_MESSAGE_LEN);
        self.api_send_pieces(to, &pieces, reply_to_msg_id)
    }

    /// Where the caller has to write the bytes of `content` before it is posted, under a name made
    /// of `id`; `None` where nothing has to be written. In gateway mode an audio file that travels
    /// with its bytes is handed over through the file system.
    pub fn spool_path<P>(&self, content: &ChannelContent<P>, id: &str) -> (r: Option<String>)
        ensures
            text::opt_string(r) == spool_path_for(self@, *content, id@),
    {
        match content {
            ChannelContent::FileData { mime_type, filename, .. } => {
                if self.gateway_url.is_none() || !text::starts_with(mime_type.as_str(), "audio/") {
                    return None;
                }
                let ext = file_names::extension(filename.as_str());
                let plain = has_plain_extension(ext.as_str());
                proof {
                    reveal_strlit(".");
                    assert("."@ == seq!['.']);
                }
                let mut path = text::concat3(SPOOL_DIR, id, ".");
                if plain {
                    path.append(ext.as_str());
                } else {
                    path.append("bin");
                }
                Some(path)
            },
            _ => None,
        }
    }

    /// The posts that deliver `content` to `user`, in order.
    ///
    /// The gateway has endpoints for audio (a voice note is one with `ptt` set) and images; what
    /// else there is goes as a text. The Cloud API has native types for voice, images, files and
    /// locations. `reply_to_msg_id` names the message that is answered: it goes with the first
    /// post. `spooled` is where the bytes of the content have been written, where
    /// [`WhatsAppAdapter::spool_path`] asks for it; otherwise it is not looked at.
    pub fn gateway_or_cloud_send<P>(
        &self,
        user: &ChannelUser,
        content: &ChannelContent<P>,
        reply_to_msg_id: Option<&str>,
        spooled: &str,
    ) -> (r: Vec<Request>)
        ensures
            posts(r@) == planned_posts(
                self@,
                user.platform_id@,
                *content,
                text::opt_text(reply_to_msg_id),
                spooled@,
            ),
    {
        let to = user.platform_id.as_str();
        match &self.gateway_url {
            Some(gateway_url) => gateway_plan(
                gateway_url.as_str(),
                to,
                content,
                reply_to_msg_id,
                spooled,
            ),
            None => self.cloud_plan(to, content, reply_to_msg_id),
        }
    }

    /// The posts to the Cloud API that deliver `content`.
    fn cloud_plan<P>(&self, to: &str, content: &ChannelContent<P>, reply_to: Option<&str>) -> (r: Vec<
        Request,
    >)
        ensures
            posts(r@) == cloud_posts(
                self@.phone_number_id,
                to@,
                *content,
                text::opt_text(reply_to),
            ),
    {
        match content {
            ChannelContent::Text(t) => self.api_send_message(to, t.as_str(), reply_to),
            ChannelContent::Voice { url, .. } => {
                let payload = json::with_member(no_members(), "link", Json::text(url.as_str()));
                assert(json::members_of(payload@) == seq![("link"@, JsonTree::Text(url@))]);
                only(self.cloud_post(to, "audio", payload, reply_to, OnFailure::CloudVoice))
            },
            ChannelContent::Image { url, caption, .. } => {
                let shown = text_or_empty(text::as_text(caption));
                let payload = json::with_member(no_members(), "link", Json::text(url.as_str()));
                let payload = json::with_member(payload, "caption", Json::text(shown));
                assert(json::members_of(payload@) == seq![
                    ("link"@, JsonTree::Text(url@)),
                    ("caption"@, JsonTree::Text(shown@)),
                ]);
                only(self.cloud_post(to, "image", payload, reply_to, OnFailure::Ignore))
            },
            ChannelContent::File { url, filename } => {
                let payload = json::with_member(no_members(), "link", Json::text(url.as_str()));
                let payload = json::with_member(
                    payload,
                    "filename",
                    Json::text(filename.as_str()),
                );
                assert(json::members_of(payload@) == seq![
                    ("link"@, JsonTree::Text(url@)),
                    ("filename"@, JsonTree::Text(filename@)),
                ]);
                only(self.cloud_post(to, "document", payload, reply_to, OnFailure::Ignore))
            },
            ChannelContent::Location { lat, lon } => {
                let payload = json::with_member(no_members(), "latitude", Json::Double(*lat));
                let payload = json::with_member(payload, "longitude", Json::Double(*lon));
                assert(json::members_of(payload@) == seq![
                    ("latitude"@, JsonTree::Double(*lat)),
                    ("longitude"@, JsonTree::Double(*lon)),
                ]);
                only(self.cloud_post(to, "location", payload, reply_to, OnFailure::Ignore))
            },
            _ => self.api_send_message(to, "(Unsupported content type)", reply_to),
        }
    }
}

/// The posts to the gateway that deliver `content`.
fn gateway_plan<P>(
    gateway_url: &str,
    to: &str,
    content: &ChannelContent<P>,
    reply_to: Option<&str>,
    spooled: &str,
) -> (r: Vec<Request>)
    ensures
        posts(r@) == gateway_posts(gateway_url@, to@, *content, text::opt_text(reply_to), spooled@),
{
    match content {
        ChannelContent::FileData { mime_type, .. } => {
            if text::starts_with(mime_type.as_str(), "audio/") {
                let url = text::concat2("file://", spooled);
                let ptt = audio_normalizer::mime_is_voice_note(mime_type.as_str());
                return only(gateway_send_audio(gateway_url, to, url.as_str(), ptt, reply_to));
            }
            gateway_send_text(
                gateway_url,
                to,
                "(Unsupported content type in Web mode)",
                reply_to,
            )
        },
        ChannelContent::Voice { url, .. } => only(
            gateway_send_audio(gateway_url, to, url.as_str(), true, reply_to),
        ),
        ChannelContent::Audio { url, .. } => only(
            gateway_send_audio(gateway_url, to, url.as_str(), false, reply_to),
        ),
        ChannelContent::Image { url, caption, .. } => only(
            gateway_send_image(gateway_url, to, url.as_str(), text::as_text(caption), reply_to),
        ),
        ChannelContent::Text(t) => gateway_send_text(gateway_url, to, t.as_str(), reply_to),
        ChannelContent::File { filename, .. } => {
            let shown = text::concat3("(File: ", filename.as_str(), " — not supported in Web mode)");
            gateway_send_text(gateway_url, to, shown.as_str(), reply_to)
        },
        _ => gateway_send_text(
            gateway_url,
            to,
            "(Unsupported content type in Web mode)",
            reply_to,
        ),
    }
}

/// One request.
fn only(request: Request) -> (r: Vec<Request>)
    ensures
        posts(r@) == seq![request@],
{
    let ghost said = request@;
    let mut r: Vec<Request> = Vec::new();
    r.push(request);
    assert(posts(r@) == seq![said]);
    r
}

// ---------------------------------------------------------------------------
// Uploaded voice notes and read receipts
// ---------------------------------------------------------------------------

/// The upload of an audio file: a form with one text field and one file field.
#[derive(Debug)]
pub struct MediaUpload {
    pub url: String,
    /// Whether the access token goes with it.
    pub authorized: bool,
    /// The name of the text field, and its text.
    pub text_field: &'static str,
    pub messaging_product: &'static str,
    /// The name of the file field, and the file's name, type and bytes.
    pub file_field: &'static str,
    pub file_name: &'static str,
    pub mime_type: String,
    pub data: Vec<u8>,
}

/// Why no media ID came out of an upload that was taken.
#[derive(Debug, Clone, Copy, PartialEq, Eq, Structural)]
pub enum UploadError {
    /// The reply is no JSON document.
    NotJson,
    /// The reply has no text called `id`.
    MissingId,
}

impl UploadError {
    /// The error in words.
    pub open spec fn text(self) -> Seq<char> {
        match self {
            UploadError::NotJson => "error decoding response body"@,
            UploadError::MissingId => "WhatsApp media upload: missing 'id' in response"@,
        }
    }

    /// The error in words.
    pub fn message(&self) -> (r: &'static str)
        ensures
            r@ == self.text(),
    {
        match self {
            UploadError::NotJson => "error decoding response body",
            UploadError::MissingId => "WhatsApp media upload: missing 'id' in response",
        }
    }
}

/// The media ID in the reply to an upload.
pub open spec fn media_id_in(reply: JsonTree) -> Result<Seq<char>, UploadError> {
    match reply.text_field("id"@) {
        Some(id) => Ok(id),
        None => Err(UploadError::MissingId),
    }
}

/// The media ID in the reply to an upload.
pub fn media_id(reply: &Json) -> (r: Result<String, UploadError>)
    ensures
        match r {
            Ok(id) => media_id_in(reply@) == Ok::<Seq<char>, UploadError>(id@),
            Err(e) => media_id_in(reply@) == Err::<Seq<char>, UploadError>(e),
        },
{
    match reply.text_at("id") {
        Some(id) => Ok(id.to_owned()),
        None => Err(UploadError::MissingId),
    }
}

/// The media ID in the body of the reply to an upload.
pub fn uploaded_media_id(body: &[u8]) -> (r: Result<String, UploadError>)
    ensures
        match json::json_in_bytes(body@) {
            Ok(reply) => match r {
                Ok(id) => media_id_in(reply) == Ok::<Seq<char>, UploadError>(id@),
                Err(e) => media_id_in(reply) == Err::<Seq<char>, UploadError>(e),
            },
            Err(_) => r == Err::<String, UploadError>(UploadError::NotJson),
        },
{
    match json::parse_bytes(body) {
        Ok(reply) => media_id(&reply),
        Err(_) => Err(UploadError::NotJson),
    }
}

impl WhatsAppAdapter {
    /// The upload of audio bytes of type `mime_type`, which comes before
    /// [`WhatsAppAdapter::send_voice`]. A reply other than a success means
    /// [`OnFailure::CloudUpload`].
    pub fn api_upload_media(&self, audio: &[u8], mime_type: &str) -> (r: MediaUpload)
        ensures
            r.url@ == cloud_url(self@.phone_number_id, "/media"@),
            r.authorized,
            r.text_field@ == "messaging_product"@,
            r.messaging_product@ == "whatsapp"@,
            r.file_field@ == "file"@,
            r.file_name@ == "voice.ogg"@,
            r.mime_type@ == mime_type@,
            r.data@ == audio@,
    {
        MediaUpload {
            url: self.cloud_address("/media"),
            authorized: true,
            text_field: "messaging_product",
            messaging_product: "whatsapp",
            file_field: "file",
            file_name: "voice.ogg",
            mime_type: mime_type.to_owned(),
            data: vstd::slice::slice_to_vec(audio),
        }
    }

    /// The post of an uploaded voice note to the Cloud API.
    pub fn send_voice(&self, to: &str, media_id: &str) -> (r: Request)
        ensures
            r@ == cloud_message(
                self@.phone_number_id,
                to@,
                "audio"@,
                seq![("id"@, JsonTree::Text(media_id@))],
                None,
                OnFailure::CloudUploadedVoice,
            ),
    {
        let payload = json::with_member(no_members(), "id", Json::text(media_id));
        assert(json::members_of(payload@) == seq![("id"@, JsonTree::Text(media_id@))]);
        self.cloud_post(to, "audio", payload, None, OnFailure::CloudUploadedVoice)
    }

    /// The post that marks a message as read.
    pub fn api_mark_read(&self, message_id: &str) -> (r: Request)
        ensures
            r@ == (Post {
                url: cloud_url(self@.phone_number_id, "/messages"@),
                authorized: true,
                body: JsonTree::Object(
                    seq![
                        ("messaging_product"@, JsonTree::Text("whatsapp"@)),
                        ("status"@, JsonTree::Text("read"@)),
                        ("message_id"@, JsonTree::Text(message_id@)),
                    ],
                ),
                on_failure: OnFailure::Ignore,
            }),
    {
        let members = json::with_member(no_members(), "messaging_product", Json::text("whatsapp"));
        let members = json::with_member(members, "status", Json::text("read"));
        let members = json::with_member(members, "message_id", Json::text(message_id));
        assert(json::members_of(members@) == seq![
            ("messaging_product"@, JsonTree::Text("whatsapp"@)),
            ("status"@, JsonTree::Text("read"@)),
            ("message_id"@, JsonTree::Text(message_id@)),
        ]);
        Request {
            url: self.cloud_address("/messages"),
            authorized: true,
            body: Json::object(members),
            on_failure: OnFailure::Ignore,
        }
    }
}

// ---------------------------------------------------------------------------
// What a reply means
// ---------------------------------------------------------------------------

/// The reason that the body of a failure gives: the text called `error` of a JSON document.
pub open spec fn gateway_reason(body: Seq<char>) -> Option<Seq<char>> {
    match json::json_in_text(text::trimmed(body)) {
        Some(reply) => reply.text_field("error"@),
        None => None,
    }
}

/// Why a delivery failed, for those who see nothing of status and body.
pub open spec fn send_failed(reason: Option<Seq<char>>, otherwise: Seq<char>) -> Seq<char> {
    "WhatsApp send failed: "@ + match reason {
        Some(t) => t,
        None => otherwise,
    }
}

/// What is reported for a reply that is no success, given the reason in its body. `None` where
/// nothing is.
pub open spec fn failure_given(
    on_failure: OnFailure,
    status: Seq<char>,
    body: Seq<char>,
    reason: Option<Seq<char>>,
) -> Option<Seq<char>> {
    match on_failure {
        OnFailure::Ignore => None,
        OnFailure::CloudText => Some("WhatsApp API error "@ + status + ": "@ + body),
        OnFailure::CloudUploadedVoice => Some(
            "WhatsApp send_voice error "@ + status + ": "@ + body,
        ),
        OnFailure::CloudUpload => Some("WhatsApp media upload error "@ + status + ": "@ + body),
        OnFailure::CloudVoice => Some(send_failed(reason, "voice send failed"@)),
        OnFailure::GatewayText => Some(send_failed(reason, "gateway request failed"@)),
        OnFailure::GatewayImage => Some(send_failed(reason, "gateway image send failed"@)),
        OnFailure::GatewayAudio => Some(send_failed(reason, "gateway audio send failed"@)),
    }
}

/// What is reported for a reply that is no success.
pub open spec fn failure_of(
    on_failure: OnFailure,
    status: Seq<char>,
    body: Seq<char>,
) -> Option<Seq<char>> {
    failure_given(on_failure, status, body, gateway_reason(body))
}

/// The text called `error` of a JSON document.
pub fn error_reason(reply: &Json) -> (r: Option<String>)
    ensures
        text::opt_string(r) == reply@.text_field("error"@),
{
    match reply.text_at("error") {
        Some(t) => Some(t.to_owned()),
        None => None,
    }
}

/// The reason that the body of a failure gives, whether it is `{ error }` or
/// `{ success, error }`. `None` where it gives none: the caller falls back to a phrase of its own,
/// so that neither status codes nor raw bodies are passed on.
pub fn extract_gateway_error_reason(body: &str) -> (r: Option<String>)
    ensures
        text::opt_string(r) == gateway_reason(body@),
{
    match json::parse_text(text::trim(body).as_str()) {
        Some(reply) => error_reason(&reply),
        None => None,
    }
}

/// The report of a status and a body.
fn status_report(what: &str, status: &str, body: &str) -> (r: String)
    ensures
        r@ == what@ + status@ + ": "@ + body@,
{
    let mut out = text::concat3(what, status, ": ");
    out.append(body);
    out
}

/// The report of a reason.
fn reason_report(reason: Option<&str>, otherwise: &str) -> (r: String)
    ensures
        r@ == send_failed(text::opt_text(reason), otherwise@),
{
    match reason {
        Some(t) => text::concat2("WhatsApp send failed: ", t),
        None => text::concat2("WhatsApp send failed: ", otherwise),
    }
}

/// What is reported for a reply that is no success, given the reason in its body.
pub fn failure_with_reason(
    on_failure: OnFailure,
    status: &str,
    body: &str,
    reason: Option<&str>,
) -> (r: Option<String>)
    ensures
        text::opt_string(r) == failure_given(on_failure, status@, body@, text::opt_text(reason)),
{
    match on_failure {
        OnFailure::Ignore => None,
        OnFailure::CloudText => Some(status_report("WhatsApp API error ", status, body)),
        OnFailure::CloudUploadedVoice => Some(
            status_report("WhatsApp send_voice error ", status, body),
        ),
        OnFailure::CloudUpload => Some(
            status_report("WhatsApp media upload error ", status, body),
        ),
        OnFailure::CloudVoice => Some(reason_report(reason, "voice send failed")),
        OnFailure::GatewayText => Some(reason_report(reason, "gateway request failed")),
        OnFailure::GatewayImage => Some(reason_report(reason, "gateway image send failed")),
        OnFailure::GatewayAudio => Some(reason_report(reason, "gateway audio send failed")),
    }
}

/// What is reported for a reply that is no success.
pub fn failure_message(on_failure: OnFailure, status: &str, body: &str) -> (r: Option<String>)
    ensures
        text::opt_string(r) == failure_of(on_failure, status@, body@),
{
    let reason = extract_gateway_error_reason(body);
    failure_with_reason(on_failure, status, body, text::as_text(&reason))
}

/// Requests that are made one after the other, up to the first that fails.
#[derive(Debug)]
pub struct Delivery {
    requests: Vec<Request>,
    done: usize,
    stopped: bool,
}

impl Delivery {
    pub closed spec fn wf(&self) -> bool {
        self.done <= self.requests@.len()
    }

    /// What has been posted.
    pub closed spec fn made(&self) -> Seq<Post> {
        posts(self.requests@).take(self.done as int)
    }

    /// What is still to be posted.
    pub closed spec fn left(&self) -> Seq<Post> {
        if self.stopped {
            Seq::empty()
        } else {
            posts(self.requests@).skip(self.done as int)
        }
    }

    /// A delivery with nothing made yet.
    pub fn new(requests: Vec<Request>) -> (r: Delivery)
        ensures
            r.wf(),
            r.made() == Seq::<Post>::empty(),
            r.left() == posts(requests@),
    {
        let r = Delivery { requests, done: 0, stopped: false };
        assert(r.made() == Seq::<Post>::empty());
        assert(r.left() == posts(requests@));
        r
    }

    /// The request to make next; `None` once there is none.
    pub fn next_request(&self) -> (r: Option<&Request>)
        requires
            self.wf(),
        ensures
            match r {
                Some(q) => self.left().len() > 0 && q@ == self.left().first(),
                None => self.left().len() == 0,
            },
    {
        if !self.stopped && self.done < self.requests.len() {
            Some(&self.requests[self.done])
        } else {
            None
        }
    }

    /// Takes the reply to the request that was made. After a failure that is reported, nothing
    /// more is posted.
    pub fn on_reply(&mut self, success: bool, status: &str, body: &str) -> (r: Result<(), String>)
        requires
            old(self).wf(),
            old(self).left().len() > 0,
        ensures
            final(self).wf(),
            final(self).made() == old(self).made().push(old(self).left().first()),
            ({
                let failure = failure_of(old(self).left().first().on_failure, status@, body@);
                match r {
                    Ok(_) => {
                        &&& success || failure is None
                        &&& final(self).left() == old(self).left().drop_first()
                    },
                    Err(e) => {
                        &&& !success
                        &&& failure == Some(e@)
                        &&& final(self).left() == Seq::<Post>::empty()
                    },
                }
            }),
    {
        let ghost made = self.made();
        let ghost left = self.left();
        let n: usize = self.requests.len();
        assert(self.done < n);
        let on_failure = self.requests[self.done].on_failure;
        self.done = self.done + 1;
        proof {
            assert(self.made() == made.push(left.first()));
            assert(self.left() == left.drop_first());
        }
        if !success {
            if let Some(e) = failure_message(on_failure, status, body) {
                self.stopped = true;
                return Err(e);
            }
        }
        Ok(())
    }
}

// ---------------------------------------------------------------------------
// Laws
// ---------------------------------------------------------------------------

/// In a direct message only the policy for those and the allowed numbers decide, in a group only
/// the group's policy and the text.
pub proof fn law_policies_are_separate(
    s: Settings,
    message: Seq<char>,
    other_message: Seq<char>,
    sender: Seq<char>,
    other_sender: Seq<char>,
    mentioned: bool,
    other_mentioned: bool,
    dm_policy: DmPolicy,
    group_policy: GroupPolicy,
    allowed_users: Seq<Seq<char>>,
)
    ensures
        handled(s, false, message, sender, mentioned) == handled(
            Settings { group_policy, ..s },
            false,
            other_message,
            sender,
            other_mentioned,
        ),
        handled(s, true, message, sender, mentioned) == handled(
            Settings { dm_policy, allowed_users, ..s },
            true,
            message,
            other_sender,
            mentioned,
        ),
{
}

/// In gateway mode everything goes to the gateway and the access token is kept out of it; in
/// Cloud mode everything goes to the Cloud API with the token.
pub proof fn law_posts_go_to_one_place<P>(
    s: Settings,
    to: Seq<char>,
    content: ChannelContent<P>,
    reply_to: Option<Seq<char>>,
    spooled: Seq<char>,
    i: int,
)
    requires
        0 <= i < planned_posts(s, to, content, reply_to, spooled).len(),
    ensures
        ({
            let post = planned_posts(s, to, content, reply_to, spooled)[i];
            match s.gateway_url {
                Some(gateway_url) => {
                    &&& !post.authorized
                    &&& text::without_trailing(gateway_url, '/').is_prefix_of(post.url)
                },
                None => post.authorized && post.url == cloud_url(s.phone_number_id, "/messages"@),
            }
        }),
{
}

/// Whatever the content, something is posted.
pub proof fn law_something_is_posted<P>(
    s: Settings,
    to: Seq<char>,
    content: ChannelContent<P>,
    reply_to: Option<Seq<char>>,
    spooled: Seq<char>,
)
    ensures
        planned_posts(s, to, content, reply_to, spooled).len() >= 1,
{
    types::law_chunks_are_the_message(
        gateway_fallback_text(content),
        MAX_MESSAGE_LEN as nat,
    );
    types::law_chunks_are_the_message("(Unsupported content type)"@, MAX_MESSAGE_LEN as nat);
    if let ChannelContent::Text(t) = content {
        types::law_chunks_are_the_message(t@, MAX_MESSAGE_LEN as nat);
    }
}

/// The text that a post carries, in either mode.
pub open spec fn carried_text(post: Post) -> Option<Seq<char>> {
    match post.body.field("text"@) {
        Some(JsonTree::Text(t)) => Some(t),
        Some(payload) => payload.text_field("body"@),
        None => None,
    }
}

/// The message that is answered is found under its name.
proof fn lemma_reply_to_field(base: Seq<(Seq<char>, JsonTree)>, reply_to: Option<Seq<char>>)
    requires
        forall|k: int| 0 <= k < base.len() ==> (#[trigger] base[k]).0 != "reply_to"@,
    ensures
        JsonTree::Object(with_reply_to(base, reply_to)).text_field("reply_to"@) == nonempty(
            reply_to,
        ),
{
    let members = with_reply_to(base, reply_to);
    match nonempty(reply_to) {
        Some(id) => {
            assert forall|k: int| 0 <= k < base.len() implies (#[trigger] members[k]).0
                != "reply_to"@ by {
                assert(members[k] == base[k]);
            }
            json::lemma_member_at(members, base.len() as int);
        },
        None => json::lemma_member_absent(members, "reply_to"@),
    }
}

/// The names in a gateway text find their values.
proof fn lemma_gateway_text_fields(
    gateway_url: Seq<char>,
    to: Seq<char>,
    message: Seq<char>,
    reply_to: Option<Seq<char>>,
)
    ensures
        ({
            let post = gateway_text(gateway_url, to, message, reply_to);
            &&& carried_text(post) == Some(message)
            &&& post.body.text_field("to"@) == Some(to)
            &&& post.body.text_field("reply_to"@) == nonempty(reply_to)
        }),
{
    reveal_strlit("to");
    assert("to"@.len() == 2);
    reveal_strlit("text");
    assert("text"@.len() == 4);
    reveal_strlit("reply_to");
    assert("reply_to"@.len() == 8);
    let base = seq![("to"@, JsonTree::Text(to)), ("text"@, JsonTree::Text(message))];
    let members = with_reply_to(base, reply_to);
    json::lemma_member_at(members, 0);
    json::lemma_member_at(members, 1);
    lemma_reply_to_field(base, reply_to);
}

/// The names in a Cloud text find their values.
proof fn lemma_cloud_text_fields(
    phone_number_id: Seq<char>,
    to: Seq<char>,
    message: Seq<char>,
    reply_to: Option<Seq<char>>,
)
    ensures
        ({
            let post = cloud_message(
                phone_number_id,
                to,
                "text"@,
                seq![("body"@, JsonTree::Text(message))],
                reply_to,
                OnFailure::CloudText,
            );
            carried_text(post) == Some(message)
        }),
{
    reveal_strlit("messaging_product");
    assert("messaging_product"@.len() == 17);
    reveal_strlit("to");
    assert("to"@.len() == 2);
    reveal_strlit("type");
    assert("type"@.len() == 4);
    reveal_strlit("text");
    assert("text"@.len() == 4);
    assert("type"@[1] != "text"@[1]);
    let payload = seq![("body"@, JsonTree::Text(message))];
    let members = seq![
        ("messaging_product"@, JsonTree::Text("whatsapp"@)),
        ("to"@, JsonTree::Text(to)),
        ("type"@, JsonTree::Text("text"@)),
        ("text"@, JsonTree::Object(payload)),
    ];
    json::lemma_member_at(members, 3);
    json::lemma_member_at(payload, 0);
    if let Some(id) = nonempty(reply_to) {
        let context = JsonTree::Object(seq![("message_id"@, JsonTree::Text(id))]);
        json::lemma_member_at(members.push(("context"@, context)), 3);
    }
}

/// A long text is delivered whole: the pieces that the posts carry, one after the other, are the
/// text, and none is longer than a message may be; all but the last are exactly that long.
pub proof fn law_text_is_delivered_whole<P>(
    s: Settings,
    to: Seq<char>,
    message: String,
    reply_to: Option<Seq<char>>,
    spooled: Seq<char>,
)
    ensures
        ({
            let all = planned_posts(
                s,
                to,
                ChannelContent::<P>::Text(message),
                reply_to,
                spooled,
            );
            let pieces = Seq::new(all.len(), |i: int| or_empty(carried_text(all[i])));
            &&& text::joined(pieces, Seq::empty()) == message@
            &&& forall|i: int|
                0 <= i < all.len() ==> (#[trigger] carried_text(all[i])) is Some
            &&& forall|i: int|
                0 <= i < pieces.len() ==> (#[trigger] pieces[i]).len() <= MAX_MESSAGE_LEN
            &&& forall|i: int| 0 <= i < pieces.len() - 1 ==> (#[trigger] pieces[i]).len() == 4_096
            &&& pieces.last().len() <= 4_096
        }),
{
    let all = planned_posts(
                s,
                to,
                ChannelContent::<P>::Text(message),
                reply_to,
                spooled,
            );
    let cut = pieces_of(message@);
    types::law_chunks_are_the_message(message@, MAX_MESSAGE_LEN as nat);
    types::law_pieces_are_as_long_as_they_may_be(message@, MAX_MESSAGE_LEN as nat);
    assert(all.len() == cut.len());
    assert forall|i: int| 0 <= i < all.len() implies #[trigger] carried_text(all[i]) == Some(
        cut[i],
    ) by {
        let quoted = if i == 0 {
            reply_to
        } else {
            None
        };
        match s.gateway_url {
            Some(gateway_url) => lemma_gateway_text_fields(gateway_url, to, cut[i], quoted),
            None => lemma_cloud_text_fields(s.phone_number_id, to, cut[i], quoted),
        }
    }
    let pieces = Seq::new(all.len(), |i: int| or_empty(carried_text(all[i])));
    assert(pieces =~= cut) by {
        assert forall|i: int| 0 <= i < pieces.len() implies pieces[i] == cut[i] by {
            assert(carried_text(all[i]) == Some(cut[i]));
        }
    }
}

/// The names in a gateway image find their values.
proof fn lemma_gateway_image_fields(
    gateway_url: Seq<char>,
    to: Seq<char>,
    image_url: Seq<char>,
    caption: Option<Seq<char>>,
    reply_to: Option<Seq<char>>,
)
    ensures
        ({
            let post = gateway_image(gateway_url, to, image_url, caption, reply_to);
            &&& post.body.text_field("to"@) == Some(to)
            &&& post.body.text_field("reply_to"@) == nonempty(reply_to)
        }),
{
    reveal_strlit("to");
    assert("to"@.len() == 2);
    reveal_strlit("image_url");
    assert("image_url"@.len() == 9);
    reveal_strlit("caption");
    assert("caption"@.len() == 7);
    reveal_strlit("reply_to");
    assert("reply_to"@.len() == 8);
    let base = seq![
        ("to"@, JsonTree::Text(to)),
        ("image_url"@, JsonTree::Text(image_url)),
        ("caption"@, JsonTree::Text(or_empty(caption))),
    ];
    let members = with_reply_to(base, reply_to);
    json::lemma_member_at(members, 0);
    json::lemma_member_at(members, 2);
    lemma_reply_to_field(base, reply_to);
}

/// The names in a gateway audio find their values.
proof fn lemma_gateway_audio_fields(
    gateway_url: Seq<char>,
    to: Seq<char>,
    audio_url: Seq<char>,
    ptt: bool,
    reply_to: Option<Seq<char>>,
)
    ensures
        ({
            let post = gateway_audio(gateway_url, to, audio_url, ptt, reply_to);
            &&& post.body.text_field("to"@) == Some(to)
            &&& post.body.field("ptt"@) == Some(JsonTree::Bool(ptt))
            &&& post.body.text_field("reply_to"@) == nonempty(reply_to)
        }),
{
    reveal_strlit("to");
    assert("to"@.len() == 2);
    reveal_strlit("audio_url");
    assert("audio_url"@.len() == 9);
    reveal_strlit("ptt");
    assert("ptt"@.len() == 3);
    reveal_strlit("reply_to");
    assert("reply_to"@.len() == 8);
    let base = seq![
        ("to"@, JsonTree::Text(to)),
        ("audio_url"@, JsonTree::Text(audio_url)),
        ("ptt"@, JsonTree::Bool(ptt)),
    ];
    let members = with_reply_to(base, reply_to);
    json::lemma_member_at(members, 0);
    json::lemma_member_at(members, 2);
    lemma_reply_to_field(base, reply_to);
}

/// In gateway mode every post is for the recipient, and the message that is answered is named in
/// the first post and in no other.
pub proof fn law_gateway_answers_once<P>(
    gateway_url: Seq<char>,
    to: Seq<char>,
    content: ChannelContent<P>,
    reply_to: Option<Seq<char>>,
    spooled: Seq<char>,
    i: int,
)
    requires
        0 <= i < gateway_posts(gateway_url, to, content, reply_to, spooled).len(),
    ensures
        ({
            let post = gateway_posts(gateway_url, to, content, reply_to, spooled)[i];
            &&& post.body.text_field("to"@) == Some(to)
            &&& post.body.text_field("reply_to"@) == if i == 0 {
                nonempty(reply_to)
            } else {
                None
            }
        }),
{
    let quoted = if i == 0 {
        reply_to
    } else {
        None
    };
    match content {
        ChannelContent::FileData { mime_type, .. } => if is_audio_mime(mime_type@) {
            lemma_gateway_audio_fields(
                gateway_url,
                to,
                "file://"@ + spooled,
                audio_normalizer::is_voice_note_mime(mime_type@),
                reply_to,
            );
        } else {
            let cut = pieces_of(gateway_fallback_text(content));
            lemma_gateway_text_fields(gateway_url, to, cut[i], quoted);
        },
        ChannelContent::Voice { url, .. } => lemma_gateway_audio_fields(
            gateway_url,
            to,
            url@,
            true,
            reply_to,
        ),
        ChannelContent::Audio { url, .. } => lemma_gateway_audio_fields(
            gateway_url,
            to,
            url@,
            false,
            reply_to,
        ),
        ChannelContent::Image { url, caption, .. } => lemma_gateway_image_fields(
            gateway_url,
            to,
            url@,
            text::opt_string(caption),
            reply_to,
        ),
        _ => {
            let cut = pieces_of(gateway_fallback_text(content));
            lemma_gateway_text_fields(gateway_url, to, cut[i], quoted);
        },
    }
}

/// The message that a Cloud message says it answers.
pub open spec fn answered_in_cloud(post: Post) -> Option<Seq<char>> {
    match post.body.field("context"@) {
        Some(context) => context.text_field("message_id"@),
        None => None,
    }
}

/// The message that a Cloud message answers is found in its context.
proof fn lemma_cloud_context(
    phone_number_id: Seq<char>,
    to: Seq<char>,
    kind: Seq<char>,
    payload: Seq<(Seq<char>, JsonTree)>,
    reply_to: Option<Seq<char>>,
    on_failure: OnFailure,
)
    requires
        kind != "context"@,
    ensures
        answered_in_cloud(
            cloud_message(phone_number_id, to, kind, payload, reply_to, on_failure),
        ) == nonempty(reply_to),
{
    reveal_strlit("messaging_product");
    assert("messaging_product"@.len() == 17);
    reveal_strlit("to");
    assert("to"@.len() == 2);
    reveal_strlit("type");
    assert("type"@.len() == 4);
    reveal_strlit("context");
    assert("context"@.len() == 7);
    let base = seq![
        ("messaging_product"@, JsonTree::Text("whatsapp"@)),
        ("to"@, JsonTree::Text(to)),
        ("type"@, JsonTree::Text(kind)),
        (kind, JsonTree::Object(payload)),
    ];
    match nonempty(reply_to) {
        Some(id) => {
            let context = seq![("message_id"@, JsonTree::Text(id))];
            let members = base.push(("context"@, JsonTree::Object(context)));
            json::lemma_member_at(members, 4);
            json::lemma_member_at(context, 0);
        },
        None => json::lemma_member_absent(base, "context"@),
    }
}

/// In Cloud mode the message that is answered is named in the first post and in no other, whatever
/// the content.
pub proof fn law_cloud_answers_once<P>(
    phone_number_id: Seq<char>,
    to: Seq<char>,
    content: ChannelContent<P>,
    reply_to: Option<Seq<char>>,
    i: int,
)
    requires
        0 <= i < cloud_posts(phone_number_id, to, content, reply_to).len(),
    ensures
        answered_in_cloud(cloud_posts(phone_number_id, to, content, reply_to)[i]) == if i == 0 {
            nonempty(reply_to)
        } else {
            None
        },
{
    reveal_strlit("context");
    assert("context"@.len() == 7);
    reveal_strlit("text");
    assert("text"@.len() == 4);
    reveal_strlit("audio");
    assert("audio"@.len() == 5);
    reveal_strlit("image");
    assert("image"@.len() == 5);
    reveal_strlit("document");
    assert("document"@.len() == 8);
    reveal_strlit("location");
    assert("location"@.len() == 8);
    match content {
        ChannelContent::Voice { url, .. } => lemma_cloud_context(
            phone_number_id,
            to,
            "audio"@,
            seq![("link"@, JsonTree::Text(url@))],
            reply_to,
            OnFailure::CloudVoice,
        ),
        ChannelContent::Image { url, caption, .. } => lemma_cloud_context(
            phone_number_id,
            to,
            "image"@,
            seq![
                ("link"@, JsonTree::Text(url@)),
                ("caption"@, JsonTree::Text(or_empty(text::opt_string(caption)))),
            ],
            reply_to,
            OnFailure::Ignore,
        ),
        ChannelContent::File { url, filename } => lemma_cloud_context(
            phone_number_id,
            to,
            "document"@,
            seq![("link"@, JsonTree::Text(url@)), ("filename"@, JsonTree::Text(filename@))],
            reply_to,
            OnFailure::Ignore,
        ),
        ChannelContent::Location { lat, lon } => lemma_cloud_context(
            phone_number_id,
            to,
            "location"@,
            seq![
                ("latitude"@, JsonTree::Double(lat)),
                ("longitude"@, JsonTree::Double(lon)),
            ],
            reply_to,
            OnFailure::Ignore,
        ),
        _ => {
            let cut = match content {
                ChannelContent::Text(t) => pieces_of(t@),
                _ => pieces_of("(Unsupported content type)"@),
            };
            lemma_cloud_context(
                phone_number_id,
                to,
                "text"@,
                seq![("body"@, JsonTree::Text(cut[i]))],
                if i == 0 {
                    reply_to
                } else {
                    None
                },
                OnFailure::CloudText,
            );
        },
    }
}

/// A voice note reaches the gateway as one: a single audio post with `ptt` set.
pub proof fn law_voice_notes_stay_voice_notes<P>(
    gateway_url: Seq<char>,
    to: Seq<char>,
    url: String,
    caption: Option<String>,
    rest: P,
    reply_to: Option<Seq<char>>,
    spooled: Seq<char>,
)
    ensures
        ({
            let all = gateway_posts(
                gateway_url,
                to,
                ChannelContent::Voice { url, caption, rest },
                reply_to,
                spooled,
            );
            &&& all.len() == 1
            &&& all[0].url == gateway_endpoint(gateway_url, "/message/send-audio"@)
            &&& all[0].body.field("ptt"@) == Some(JsonTree::Bool(true))
        }),
{
    lemma_gateway_audio_fields(gateway_url, to, url@, true, reply_to);
}

/// An audio file that travels with its bytes is written into the spool directory, under the name
/// that the caller chose, and reaches the gateway as audio at that place.
pub proof fn law_audio_files_reach_the_gateway<P>(
    s: Settings,
    to: Seq<char>,
    data: Vec<u8>,
    mime_type: String,
    filename: String,
    id: Seq<char>,
    reply_to: Option<Seq<char>>,
)
    requires
        s.gateway_url is Some,
        is_audio_mime(mime_type@),
        !id.contains('/'),
    ensures
        ({
            let content = ChannelContent::<P>::FileData { data, mime_type, filename };
            let gateway_url = s.gateway_url->0;
            &&& spool_path_for(s, content, id) matches Some(path)
            &&& SPOOL_DIR@.is_prefix_of(path)
            &&& !path.skip(SPOOL_DIR@.len() as int).contains('/')
            &&& planned_posts(s, to, content, reply_to, path) == seq![
                gateway_audio(
                    gateway_url,
                    to,
                    "file://"@ + path,
                    audio_normalizer::is_voice_note_mime(mime_type@),
                    reply_to,
                ),
            ]
        }),
{
    let content = ChannelContent::<P>::FileData { data, mime_type, filename };
    let path = spool_path_for(s, content, id)->0;
    let ext = spool_extension(filename@);
    let name = id + seq!['.'] + ext;
    reveal_strlit("bin");
    assert("bin"@ == seq!['b', 'i', 'n']);
    assert(path == SPOOL_DIR@ + name);
    assert(path.skip(SPOOL_DIR@.len() as int) == name);
    if name.contains('/') {
        let i = choose|i: int| 0 <= i < name.len() && name[i] == '/';
        if i < id.len() {
            assert(id[i] == '/');
        } else if i > id.len() {
            let k = i - id.len() - 1;
            assert(ext[k] == '/');
            assert(is_plain_extension(ext) ==> is_alphanumeric(ext[k]));
        }
    }
}

/// What is reported for a failed gateway post shows nothing of the status code, and of the body
/// only the reason in it.
pub proof fn law_gateway_failures_show_the_reason_only(
    on_failure: OnFailure,
    status: Seq<char>,
    body: Seq<char>,
    other_status: Seq<char>,
    other_body: Seq<char>,
)
    requires
        on_failure == OnFailure::GatewayText || on_failure == OnFailure::GatewayImage || on_failure
            == OnFailure::GatewayAudio,
        gateway_reason(body) == gateway_reason(other_body),
    ensures
        failure_of(on_failure, status, body) is Some,
        failure_of(on_failure, status, body) == failure_of(on_failure, other_status, other_body),
{
}

/// Every number in the list is allowed, wherever it stands; where the list is not empty, a number
/// that stands nowhere in it is not; an empty list allows every number.
pub proof fn law_every_listed_number_is_allowed(
    users: Seq<Seq<char>>,
    i: int,
    phone: Seq<char>,
)
    ensures
        0 <= i < users.len() ==> allowed(users, users[i]),
        users.len() > 0 && (forall|k: int| 0 <= k < users.len() ==> (#[trigger] users[k]) != phone)
            ==> !allowed(users, phone),
        users.len() == 0 ==> allowed(users, phone),
{
    if 0 <= i < users.len() {
        assert(users.contains(users[i]));
    }
}

/// The order of the list does not matter, nor how often a number stands in it: lists of the same
/// numbers allow the same numbers.
pub proof fn law_order_of_the_list_does_not_matter(
    users: Seq<Seq<char>>,
    others: Seq<Seq<char>>,
    phone: Seq<char>,
)
    requires
        forall|i: int| 0 <= i < users.len() ==> others.contains(#[trigger] users[i]),
        forall|i: int| 0 <= i < others.len() ==> users.contains(#[trigger] others[i]),
    ensures
        allowed(users, phone) == allowed(others, phone),
{
    if users.len() > 0 {
        assert(others.contains(users[0]));
    }
    if others.len() > 0 {
        assert(users.contains(others[0]));
    }
    if users.contains(phone) {
        let i = choose|i: int| 0 <= i < users.len() && users[i] == phone;
        assert(others.contains(users[i]));
    }
    if others.contains(phone) {
        let i = choose|i: int| 0 <= i < others.len() && others[i] == phone;
        assert(users.contains(others[i]));
    }
}

/// What each policy answers: all, none, the listed numbers, the mentions, or the commands. A
/// command has a slash as the first character that is not white space.
pub proof fn law_what_each_policy_answers(
    s: Settings,
    message: Seq<char>,
    sender: Seq<char>,
    mentioned: bool,
)
    ensures
        s.dm_policy == DmPolicy::Respond ==> handled(s, false, message, sender, mentioned),
        s.dm_policy == DmPolicy::Ignore ==> !handled(s, false, message, sender, mentioned),
        s.dm_policy == DmPolicy::AllowedOnly ==> (handled(s, false, message, sender, mentioned)
            <==> s.allowed_users.len() == 0 || exists|i: int|
            0 <= i < s.allowed_users.len() && #[trigger] s.allowed_users[i] == sender),
        s.group_policy == GroupPolicy::All ==> handled(s, true, message, sender, mentioned),
        s.group_policy == GroupPolicy::Ignore ==> !handled(s, true, message, sender, mentioned),
        s.group_policy == GroupPolicy::MentionOnly ==> handled(s, true, message, sender, mentioned)
            == mentioned,
        s.group_policy == GroupPolicy::CommandsOnly ==> (handled(
            s,
            true,
            message,
            sender,
            mentioned,
        ) <==> exists|k: int|
            0 <= k < message.len() && #[trigger] message[k] == '/' && forall|i: int|
                0 <= i < k ==> text::is_white_space_spec(#[trigger] message[i])),
{
    text::law_trimming_takes_white_space_off(message);
    let from = message.len() - text::trimmed_start(message).len();
    let front = text::trimmed_start(message);
    if seq!['/'].is_prefix_of(front) {
        assert(front.subrange(0, 1)[0] == '/');
        assert(message[from] == '/');
    }
    if exists|k: int|
        0 <= k < message.len() && #[trigger] message[k] == '/' && forall|i: int|
            0 <= i < k ==> text::is_white_space_spec(#[trigger] message[i]) {
        let k = choose|k: int|
            0 <= k < message.len() && #[trigger] message[k] == '/' && forall|i: int|
                0 <= i < k ==> text::is_white_space_spec(#[trigger] message[i]);
        if k < from {
            assert(text::is_white_space_spec(message[k]));
        }
        if from < k {
            assert(text::is_white_space_spec(message[from]));
        }
        assert(k == from);
        assert(front[0] == message[from]);
        assert(front.subrange(0, 1) == seq!['/']);
    }
}

/// A text mentions the bot if and only if it holds the bot's number as it stands, the number after
/// an `@` without the plus signs in front, or the bot's name. Without a number and a name, nothing
/// mentions the bot.
pub proof fn law_what_mentions_the_bot(
    lower: Seq<char>,
    pluses: Seq<char>,
    bare: Seq<char>,
    name: Seq<char>,
)
    requires
        forall|i: int| 0 <= i < pluses.len() ==> (#[trigger] pluses[i]) == '+',
        bare.len() > 0 ==> bare[0] != '+',
    ensures
        !mentions(lower, None, None),
        mentions(lower, None, Some(name)) <==> text::occurs_in(lower, name),
        mentions(lower, Some(pluses + bare), None) <==> text::occurs_in(lower, pluses + bare)
            || text::occurs_in(lower, "@"@ + bare),
        mentions(lower, Some(pluses + bare), Some(name)) <==> mentions(
            lower,
            Some(pluses + bare),
            None,
        ) || mentions(lower, None, Some(name)),
{
    text::law_leading_run_is_taken_off(pluses, bare, '+');
    reveal_strlit("@");
    assert("@"@ == seq!['@']);
}

/// Text and name are compared in lowercase, so the case of letters does not matter: a text that
/// holds the bot's name in any case mentions it. The number is compared as it is set.
pub proof fn law_mentions_ignore_case(s: Settings, message: Seq<char>, name: Seq<char>)
    ensures
        s.bot_name is None ==> mentioned_in(s, message) == mentions(
            text::unicode_lowercase(message),
            s.bot_phone,
            None,
        ),
        s.bot_name == Some(name) ==> mentioned_in(s, message) == mentions(
            text::unicode_lowercase(message),
            s.bot_phone,
            Some(text::unicode_lowercase(name)),
        ),
        s.bot_name is None ==> mentioned_in_ascii(s, message) == mentions(
            text::ascii_lowered(message),
            s.bot_phone,
            None,
        ),
        s.bot_name == Some(name) ==> mentioned_in_ascii(s, message) == mentions(
            text::ascii_lowered(message),
            s.bot_phone,
            Some(text::ascii_lowered(name)),
        ),
{
}

/// An empty text counts as none; any other one stays.
pub proof fn law_empty_text_is_none(t: Seq<char>)
    ensures
        nonempty(None) is None,
        nonempty(Some(t)) == if t.len() == 0 {
            None
        } else {
            Some(t)
        },
{
}

/// The names in a Cloud message find their values.
proof fn lemma_cloud_message_fields(
    phone_number_id: Seq<char>,
    to: Seq<char>,
    kind: Seq<char>,
    payload: Seq<(Seq<char>, JsonTree)>,
    reply_to: Option<Seq<char>>,
    on_failure: OnFailure,
)
    requires
        kind != "messaging_product"@,
        kind != "to"@,
        kind != "type"@,
    ensures
        ({
            let post = cloud_message(phone_number_id, to, kind, payload, reply_to, on_failure);
            &&& post.url == "https://graph.facebook.com/v21.0/"@ + phone_number_id + "/messages"@
            &&& post.authorized
            &&& post.body.field("messaging_product"@) == Some(JsonTree::Text("whatsapp"@))
            &&& post.body.field("to"@) == Some(JsonTree::Text(to))
            &&& post.body.field("type"@) == Some(JsonTree::Text(kind))
            &&& post.body.field(kind) == Some(JsonTree::Object(payload))
            &&& post.on_failure == on_failure
        }),
{
    reveal_strlit("messaging_product");
    assert("messaging_product"@.len() == 17);
    reveal_strlit("to");
    assert("to"@.len() == 2);
    reveal_strlit("type");
    assert("type"@.len() == 4);
    let base = seq![
        ("messaging_product"@, JsonTree::Text("whatsapp"@)),
        ("to"@, JsonTree::Text(to)),
        ("type"@, JsonTree::Text(kind)),
        (kind, JsonTree::Object(payload)),
    ];
    let members = match nonempty(reply_to) {
        Some(id) => base.push(
            ("context"@, JsonTree::Object(seq![("message_id"@, JsonTree::Text(id))])),
        ),
        None => base,
    };
    assert(members[0] == base[0] && members[1] == base[1] && members[2] == base[2] && members[3]
        == base[3]);
    json::lemma_member_at(members, 0);
    json::lemma_member_at(members, 1);
    json::lemma_member_at(members, 2);
    json::lemma_member_at(members, 3);
}

/// The types of Cloud messages have names of their own.
proof fn lemma_cloud_kinds()
    ensures
        "messaging_product"@.len() == 17,
        "to"@.len() == 2,
        "type"@.len() == 4 && "type"@[1] == 'y',
        "text"@.len() == 4 && "text"@[1] == 'e',
        "audio"@.len() == 5,
        "image"@.len() == 5,
        "document"@.len() == 8,
        "location"@.len() == 8,
        "link"@.len() == 4,
        "caption"@.len() == 7,
        "filename"@.len() == 8,
        "latitude"@.len() == 8,
        "longitude"@.len() == 9,
{
    reveal_strlit("messaging_product");
    reveal_strlit("to");
    reveal_strlit("type");
    reveal_strlit("text");
    reveal_strlit("audio");
    reveal_strlit("image");
    reveal_strlit("document");
    reveal_strlit("location");
    reveal_strlit("link");
    reveal_strlit("caption");
    reveal_strlit("filename");
    reveal_strlit("latitude");
    reveal_strlit("longitude");
}

/// Whether a post is a message of type `kind` from `phone_number_id` to `to` for the Cloud API.
pub open spec fn is_cloud_message(
    post: Post,
    phone_number_id: Seq<char>,
    to: Seq<char>,
    kind: Seq<char>,
) -> bool {
    &&& post.url == "https://graph.facebook.com/v21.0/"@ + phone_number_id + "/messages"@
    &&& post.authorized
    &&& post.body.field("messaging_product"@) == Some(JsonTree::Text("whatsapp"@))
    &&& post.body.field("to"@) == Some(JsonTree::Text(to))
    &&& post.body.field("type"@) == Some(JsonTree::Text(kind))
}

/// An image in Cloud mode is a single post of type `image`: under that name it has the image's URL
/// as `link` and the caption that was given as `caption`, which is empty only where there is none.
/// A reply that is no success is not reported.
pub proof fn law_cloud_images_carry_link_and_caption<P>(
    phone_number_id: Seq<char>,
    to: Seq<char>,
    url: String,
    caption: Option<String>,
    rest: P,
    reply_to: Option<Seq<char>>,
)
    ensures
        ({
            let all = cloud_posts(
                phone_number_id,
                to,
                ChannelContent::Image { url, caption, rest },
                reply_to,
            );
            &&& all.len() == 1
            &&& is_cloud_message(all[0], phone_number_id, to, "image"@)
            &&& all[0].body.field("image"@) matches Some(image)
            &&& image.field("link"@) == Some(JsonTree::Text(url@))
            &&& caption matches Some(c) ==> image.field("caption"@) == Some(JsonTree::Text(c@))
            &&& caption is None ==> image.field("caption"@) == Some(JsonTree::Text(Seq::empty()))
            &&& forall|other: Seq<char>|
                other != "link"@ && other != "caption"@ ==> #[trigger] image.field(other) is None
            &&& all[0].on_failure == OnFailure::Ignore
        }),
{
    lemma_cloud_kinds();
    let payload = seq![
        ("link"@, JsonTree::Text(url@)),
        ("caption"@, JsonTree::Text(or_empty(text::opt_string(caption)))),
    ];
    lemma_cloud_message_fields(
        phone_number_id,
        to,
        "image"@,
        payload,
        reply_to,
        OnFailure::Ignore,
    );
    json::lemma_member_at(payload, 0);
    json::lemma_member_at(payload, 1);
    let sent = JsonTree::Object(payload);
    assert forall|other: Seq<char>| other != "link"@ && other != "caption"@ implies
        #[trigger] sent.field(other) is None by {
        json::lemma_member_absent(payload, other);
    }
}

/// A voice note in Cloud mode is a single post of type `audio` with its URL as `link`. A reply
/// that is no success is reported.
pub proof fn law_cloud_voice_notes_carry_their_link<P>(
    phone_number_id: Seq<char>,
    to: Seq<char>,
    url: String,
    caption: Option<String>,
    rest: P,
    reply_to: Option<Seq<char>>,
)
    ensures
        ({
            let all = cloud_posts(
                phone_number_id,
                to,
                ChannelContent::Voice { url, caption, rest },
                reply_to,
            );
            &&& all.len() == 1
            &&& is_cloud_message(all[0], phone_number_id, to, "audio"@)
            &&& all[0].body.field("audio"@) matches Some(audio)
            &&& audio.field("link"@) == Some(JsonTree::Text(url@))
            &&& forall|other: Seq<char>|
                other != "link"@ ==> #[trigger] audio.field(other) is None
            &&& all[0].on_failure == OnFailure::CloudVoice
        }),
{
    lemma_cloud_kinds();
    let payload = seq![("link"@, JsonTree::Text(url@))];
    lemma_cloud_message_fields(
        phone_number_id,
        to,
        "audio"@,
        payload,
        reply_to,
        OnFailure::CloudVoice,
    );
    json::lemma_member_at(payload, 0);
    let sent = JsonTree::Object(payload);
    assert forall|other: Seq<char>| other != "link"@ implies
        #[trigger] sent.field(other) is None by {
        json::lemma_member_absent(payload, other);
    }
}

/// A file in Cloud mode is a single post of type `document` with its URL as `link` and its name as
/// `filename`. A reply that is no success is not reported.
pub proof fn law_cloud_files_carry_link_and_name<P>(
    phone_number_id: Seq<char>,
    to: Seq<char>,
    url: String,
    filename: String,
    reply_to: Option<Seq<char>>,
)
    ensures
        ({
            let all = cloud_posts(
                phone_number_id,
                to,
                ChannelContent::<P>::File { url, filename },
                reply_to,
            );
            &&& all.len() == 1
            &&& is_cloud_message(all[0], phone_number_id, to, "document"@)
            &&& all[0].body.field("document"@) matches Some(document)
            &&& document.field("link"@) == Some(JsonTree::Text(url@))
            &&& document.field("filename"@) == Some(JsonTree::Text(filename@))
            &&& forall|other: Seq<char>|
                other != "link"@ && other != "filename"@ ==> #[trigger] document.field(
                    other,
                ) is None
            &&& all[0].on_failure == OnFailure::Ignore
        }),
{
    lemma_cloud_kinds();
    let payload = seq![
        ("link"@, JsonTree::Text(url@)),
        ("filename"@, JsonTree::Text(filename@)),
    ];
    lemma_cloud_message_fields(
        phone_number_id,
        to,
        "document"@,
        payload,
        reply_to,
        OnFailure::Ignore,
    );
    json::lemma_member_at(payload, 0);
    json::lemma_member_at(payload, 1);
    let sent = JsonTree::Object(payload);
    assert forall|other: Seq<char>| other != "link"@ && other != "filename"@ implies
        #[trigger] sent.field(other) is None by {
        json::lemma_member_absent(payload, other);
    }
}

/// A place in Cloud mode is a single post of type `location` with both coordinates. A reply that is
/// no success is not reported.
pub proof fn law_cloud_places_carry_both_coordinates<P>(
    phone_number_id: Seq<char>,
    to: Seq<char>,
    lat: u64,
    lon: u64,
    reply_to: Option<Seq<char>>,
)
    ensures
        ({
            let all = cloud_posts(
                phone_number_id,
                to,
                ChannelContent::<P>::Location { lat, lon },
                reply_to,
            );
            &&& all.len() == 1
            &&& is_cloud_message(all[0], phone_number_id, to, "location"@)
            &&& all[0].body.field("location"@) matches Some(location)
            &&& location.field("latitude"@) == Some(JsonTree::Double(lat))
            &&& location.field("longitude"@) == Some(JsonTree::Double(lon))
            &&& forall|other: Seq<char>|
                other != "latitude"@ && other != "longitude"@ ==> #[trigger] location.field(
                    other,
                ) is None
            &&& all[0].on_failure == OnFailure::Ignore
        }),
{
    lemma_cloud_kinds();
    let payload = seq![
        ("latitude"@, JsonTree::Double(lat)),
        ("longitude"@, JsonTree::Double(lon)),
    ];
    lemma_cloud_message_fields(
        phone_number_id,
        to,
        "location"@,
        payload,
        reply_to,
        OnFailure::Ignore,
    );
    json::lemma_member_at(payload, 0);
    json::lemma_member_at(payload, 1);
    let sent = JsonTree::Object(payload);
    assert forall|other: Seq<char>| other != "latitude"@ && other != "longitude"@ implies
        #[trigger] sent.field(other) is None by {
        json::lemma_member_absent(payload, other);
    }
}

/// What else there is goes to the Cloud API as messages of type `text`, and their failures are
/// reported. A text is its own words; a content of a kind that the Cloud API does not take is one
/// message that says so.
pub proof fn law_cloud_texts_say_the_text<P>(
    phone_number_id: Seq<char>,
    to: Seq<char>,
    content: ChannelContent<P>,
    reply_to: Option<Seq<char>>,
    i: int,
)
    requires
        !(content is Voice) && !(content is Image) && !(content is File) && !(content is Location),
        0 <= i < cloud_posts(phone_number_id, to, content, reply_to).len(),
    ensures
        ({
            let all = cloud_posts(phone_number_id, to, content, reply_to);
            &&& is_cloud_message(all[i], phone_number_id, to, "text"@)
            &&& all[i].on_failure == OnFailure::CloudText
            &&& all[i].body.field("text"@) matches Some(said)
            &&& said.field("body"@) matches Some(JsonTree::Text(body))
            &&& content matches ChannelContent::Text(t) ==> t@.len() <= 4_096 ==> all.len() == 1
                && body == t@
            &&& !(content is Text) ==> all.len() == 1 && body == "(Unsupported content type)"@
        }),
{
    lemma_cloud_kinds();
    let shown = match content {
        ChannelContent::Text(t) => t@,
        _ => "(Unsupported content type)"@,
    };
    reveal_strlit("(Unsupported content type)");
    assert("(Unsupported content type)"@.len() == 26);
    let cut = pieces_of(shown);
    types::law_pieces_are_as_long_as_they_may_be(shown, MAX_MESSAGE_LEN as nat);
    let payload = seq![("body"@, JsonTree::Text(cut[i]))];
    lemma_cloud_message_fields(
        phone_number_id,
        to,
        "text"@,
        payload,
        if i == 0 {
            reply_to
        } else {
            None
        },
        OnFailure::CloudText,
    );
    json::lemma_member_at(payload, 0);
}

/// A voice note that was uploaded is a message of type `audio` that names the media ID.
pub proof fn law_uploaded_voice_notes_name_their_id(
    phone_number_id: Seq<char>,
    to: Seq<char>,
    media_id: Seq<char>,
)
    ensures
        ({
            let post = cloud_message(
                phone_number_id,
                to,
                "audio"@,
                seq![("id"@, JsonTree::Text(media_id))],
                None,
                OnFailure::CloudUploadedVoice,
            );
            &&& is_cloud_message(post, phone_number_id, to, "audio"@)
            &&& post.body.field("audio"@) matches Some(audio)
            &&& audio.field("id"@) == Some(JsonTree::Text(media_id))
            &&& forall|other: Seq<char>|
                other != "id"@ ==> #[trigger] audio.field(other) is None
            &&& post.body.field("context"@) is None
            &&& post.on_failure == OnFailure::CloudUploadedVoice
        }),
{
    lemma_cloud_kinds();
    let payload = seq![("id"@, JsonTree::Text(media_id))];
    lemma_cloud_message_fields(
        phone_number_id,
        to,
        "audio"@,
        payload,
        None,
        OnFailure::CloudUploadedVoice,
    );
    json::lemma_member_at(payload, 0);
    let sent = JsonTree::Object(payload);
    assert forall|other: Seq<char>| other != "id"@ implies
        #[trigger] sent.field(other) is None by {
        json::lemma_member_absent(payload, other);
    }
    reveal_strlit("context");
    assert("context"@.len() == 7);
    let members = seq![
        ("messaging_product"@, JsonTree::Text("whatsapp"@)),
        ("to"@, JsonTree::Text(to)),
        ("type"@, JsonTree::Text("audio"@)),
        ("audio"@, JsonTree::Object(payload)),
    ];
    json::lemma_member_absent(members, "context"@);
}

/// The endpoint follows the gateway's address, whose trailing slashes do not count.
pub proof fn law_endpoint_follows_the_gateway(
    base: Seq<char>,
    slashes: Seq<char>,
    endpoint: Seq<char>,
)
    requires
        forall|i: int| 0 <= i < slashes.len() ==> (#[trigger] slashes[i]) == '/',
        base.len() > 0 ==> base.last() != '/',
    ensures
        gateway_endpoint(base + slashes, endpoint) == base + endpoint,
{
    text::law_trailing_run_is_taken_off(base, slashes, '/');
}

/// An image in gateway mode is a single post to the endpoint for images: it has the image's URL as
/// `image_url` and the caption that was given as `caption`, which is empty only where there is
/// none.
pub proof fn law_gateway_images_carry_url_and_caption<P>(
    base: Seq<char>,
    slashes: Seq<char>,
    to: Seq<char>,
    url: String,
    caption: Option<String>,
    rest: P,
    reply_to: Option<Seq<char>>,
    spooled: Seq<char>,
)
    requires
        forall|i: int| 0 <= i < slashes.len() ==> (#[trigger] slashes[i]) == '/',
        base.len() > 0 ==> base.last() != '/',
    ensures
        ({
            let all = gateway_posts(
                base + slashes,
                to,
                ChannelContent::Image { url, caption, rest },
                reply_to,
                spooled,
            );
            &&& all.len() == 1
            &&& all[0].url == base + "/message/send-image"@
            &&& !all[0].authorized
            &&& all[0].body.field("to"@) == Some(JsonTree::Text(to))
            &&& all[0].body.field("image_url"@) == Some(JsonTree::Text(url@))
            &&& caption matches Some(c) ==> all[0].body.field("caption"@) == Some(
                JsonTree::Text(c@),
            )
            &&& caption is None ==> all[0].body.field("caption"@) == Some(
                JsonTree::Text(Seq::empty()),
            )
            &&& all[0].on_failure == OnFailure::GatewayImage
        }),
{
    law_endpoint_follows_the_gateway(base, slashes, "/message/send-image"@);
    reveal_strlit("to");
    assert("to"@.len() == 2);
    reveal_strlit("image_url");
    assert("image_url"@.len() == 9);
    reveal_strlit("caption");
    assert("caption"@.len() == 7);
    let members = with_reply_to(
        seq![
            ("to"@, JsonTree::Text(to)),
            ("image_url"@, JsonTree::Text(url@)),
            ("caption"@, JsonTree::Text(or_empty(text::opt_string(caption)))),
        ],
        reply_to,
    );
    json::lemma_member_at(members, 0);
    json::lemma_member_at(members, 1);
    json::lemma_member_at(members, 2);
}

/// Voice notes, audio files and audio that travels with its bytes are single posts to the
/// endpoint for audio in gateway mode: the first two at their own URL, the last at the place where
/// its bytes were written. A voice note has `ptt` set, an audio file has not, and of audio with its
/// bytes the MIME type decides.
pub proof fn law_gateway_audio_carries_its_url<P>(
    base: Seq<char>,
    slashes: Seq<char>,
    to: Seq<char>,
    content: ChannelContent<P>,
    reply_to: Option<Seq<char>>,
    spooled: Seq<char>,
)
    requires
        forall|i: int| 0 <= i < slashes.len() ==> (#[trigger] slashes[i]) == '/',
        base.len() > 0 ==> base.last() != '/',
        content is Voice || content is Audio || (content matches ChannelContent::FileData {
            mime_type,
            ..
        } && "audio/"@.is_prefix_of(mime_type@)),
    ensures
        ({
            let all = gateway_posts(base + slashes, to, content, reply_to, spooled);
            let body = all[0].body;
            &&& all.len() == 1
            &&& all[0].url == base + "/message/send-audio"@
            &&& !all[0].authorized
            &&& body.field("to"@) == Some(JsonTree::Text(to))
            &&& content matches ChannelContent::Voice { url, .. } ==> body.field("audio_url"@)
                == Some(JsonTree::Text(url@)) && body.field("ptt"@) == Some(JsonTree::Bool(true))
            &&& content matches ChannelContent::Audio { url, .. } ==> body.field("audio_url"@)
                == Some(JsonTree::Text(url@)) && body.field("ptt"@) == Some(JsonTree::Bool(false))
            &&& content matches ChannelContent::FileData { mime_type, .. } ==> body.field(
                "audio_url"@,
            ) == Some(JsonTree::Text("file://"@ + spooled)) && body.field("ptt"@) == Some(
                JsonTree::Bool(
                    text::occurs_in(mime_type@, "opus"@) || text::occurs_in(mime_type@, "ogg"@),
                ),
            )
            &&& all[0].on_failure == OnFailure::GatewayAudio
        }),
{
    law_endpoint_follows_the_gateway(base, slashes, "/message/send-audio"@);
    reveal_strlit("to");
    assert("to"@.len() == 2);
    reveal_strlit("audio_url");
    assert("audio_url"@.len() == 9);
    reveal_strlit("ptt");
    assert("ptt"@.len() == 3);
    let (url, ptt) = match content {
        ChannelContent::Voice { url, .. } => (url@, true),
        ChannelContent::Audio { url, .. } => (url@, false),
        ChannelContent::FileData { mime_type, .. } => (
            "file://"@ + spooled,
            audio_normalizer::is_voice_note_mime(mime_type@),
        ),
        _ => (spooled, false),
    };
    let members = with_reply_to(
        seq![
            ("to"@, JsonTree::Text(to)),
            ("audio_url"@, JsonTree::Text(url)),
            ("ptt"@, JsonTree::Bool(ptt)),
        ],
        reply_to,
    );
    json::lemma_member_at(members, 0);
    json::lemma_member_at(members, 1);
    json::lemma_member_at(members, 2);
}

/// What else there is goes to the gateway's endpoint for texts. A text is its own words; a file is
/// one message that names it; and any other content is one message that says that it is not
/// supported.
pub proof fn law_gateway_texts_say_the_text<P>(
    base: Seq<char>,
    slashes: Seq<char>,
    to: Seq<char>,
    content: ChannelContent<P>,
    reply_to: Option<Seq<char>>,
    spooled: Seq<char>,
    i: int,
)
    requires
        forall|k: int| 0 <= k < slashes.len() ==> (#[trigger] slashes[k]) == '/',
        base.len() > 0 ==> base.last() != '/',
        !(content is Voice) && !(content is Audio) && !(content is Image),
        content matches ChannelContent::FileData { mime_type, .. } ==> !"audio/"@.is_prefix_of(
            mime_type@,
        ),
        0 <= i < gateway_posts(base + slashes, to, content, reply_to, spooled).len(),
    ensures
        ({
            let all = gateway_posts(base + slashes, to, content, reply_to, spooled);
            &&& all[i].url == base + "/message/send"@
            &&& !all[i].authorized
            &&& all[i].on_failure == OnFailure::GatewayText
            &&& all[i].body.field("to"@) == Some(JsonTree::Text(to))
            &&& all[i].body.field("text"@) matches Some(JsonTree::Text(said))
            &&& content matches ChannelContent::Text(t) ==> t@.len() <= 4_096 ==> all.len() == 1
                && said == t@
            &&& content matches ChannelContent::File { filename, .. } ==> filename@.len() <= 4_000
                ==> all.len() == 1 && said == "(File: "@ + filename@
                + " — not supported in Web mode)"@
            &&& !(content is Text) && !(content is File) ==> all.len() == 1 && said
                == "(Unsupported content type in Web mode)"@
        }),
{
    law_endpoint_follows_the_gateway(base, slashes, "/message/send"@);
    let shown = gateway_fallback_text(content);
    reveal_strlit("(File: ");
    assert("(File: "@.len() == 7);
    reveal_strlit(" — not supported in Web mode)");
    assert(" — not supported in Web mode)"@.len() < 60);
    reveal_strlit("(Unsupported content type in Web mode)");
    assert("(Unsupported content type in Web mode)"@.len() < 60);
    let cut = pieces_of(shown);
    types::law_pieces_are_as_long_as_they_may_be(shown, MAX_MESSAGE_LEN as nat);
    reveal_strlit("to");
    assert("to"@.len() == 2);
    reveal_strlit("text");
    assert("text"@.len() == 4);
    let members = with_reply_to(
        seq![("to"@, JsonTree::Text(to)), ("text"@, JsonTree::Text(cut[i]))],
        if i == 0 {
            reply_to
        } else {
            None
        },
    );
    json::lemma_member_at(members, 0);
    json::lemma_member_at(members, 1);
}

/// The bytes of a content are written to a file if and only if there is a gateway and the content
/// is a file with its bytes whose MIME type begins with `audio/`. The file stands in the spool
/// directory, under the name that was chosen, with the extension of the content's own name where
/// that is made of ASCII letters and digits, and with `bin` otherwise.
pub proof fn law_where_audio_bytes_are_written<P>(
    s: Settings,
    content: ChannelContent<P>,
    id: Seq<char>,
    stem: Seq<char>,
    ext: Seq<char>,
)
    requires
        stem.len() > 0,
        !ext.contains('.'),
    ensures
        spool_path_for(s, content, id) is Some <==> s.gateway_url is Some && (
        content matches ChannelContent::FileData { mime_type, .. } && "audio/"@.is_prefix_of(
            mime_type@,
        )),
        spool_path_for(s, content, id) is Some ==> (content matches ChannelContent::FileData {
            filename,
            ..
        } && {
            let plain = ext.len() > 0 && forall|i: int|
                0 <= i < ext.len() ==> ('a' <= #[trigger] ext[i] <= 'z' || 'A' <= ext[i] <= 'Z'
                    || '0' <= ext[i] <= '9');
            &&& filename@ == stem + "."@ + ext && plain ==> spool_path_for(s, content, id) == Some(
                "/tmp/librefang_audio_out/"@ + id + "."@ + ext,
            )
            &&& (filename@ == stem + "."@ + ext && !plain) || filename@ == ext || filename@ == "."@
                + ext ==> spool_path_for(s, content, id) == Some(
                "/tmp/librefang_audio_out/"@ + id + "."@ + "bin"@,
            )
        }),
{
    reveal_strlit(".");
    assert("."@ == seq!['.']);
    file_names::law_name_is_stem_and_extension(stem, ext);
    if is_plain_extension(ext) {
        assert forall|i: int| 0 <= i < ext.len() implies ('a' <= #[trigger] ext[i] <= 'z' || 'A'
            <= ext[i] <= 'Z' || '0' <= ext[i] <= '9') by {
            assert(is_alphanumeric(ext[i]));
        }
    }
}

/// What is reported of a reply that is no success. Posts whose failures do not count report
/// nothing. Texts, uploads and uploaded voice notes of the Cloud API report the status and the
/// body; the other posts report the reason in the body, or a phrase of their own where it gives
/// none.
pub proof fn law_what_failures_report(
    status: Seq<char>,
    body: Seq<char>,
    why: Seq<char>,
    reason: Option<Seq<char>>,
)
    ensures
        failure_given(OnFailure::Ignore, status, body, reason) is None,
        failure_given(OnFailure::CloudText, status, body, reason) == Some(
            "WhatsApp API error "@ + status + ": "@ + body,
        ),
        failure_given(OnFailure::CloudUploadedVoice, status, body, reason) == Some(
            "WhatsApp send_voice error "@ + status + ": "@ + body,
        ),
        failure_given(OnFailure::CloudUpload, status, body, reason) == Some(
            "WhatsApp media upload error "@ + status + ": "@ + body,
        ),
        forall|on_failure: OnFailure|
            on_failure == OnFailure::CloudVoice || on_failure == OnFailure::GatewayText
                || on_failure == OnFailure::GatewayImage || on_failure == OnFailure::GatewayAudio
                ==> #[trigger] failure_given(on_failure, status, body, Some(why)) == Some(
                "WhatsApp send failed: "@ + why,
            ),
        failure_given(OnFailure::CloudVoice, status, body, None) == Some(
            "WhatsApp send failed: "@ + "voice send failed"@,
        ),
        failure_given(OnFailure::GatewayText, status, body, None) == Some(
            "WhatsApp send failed: "@ + "gateway request failed"@,
        ),
        failure_given(OnFailure::GatewayImage, status, body, None) == Some(
            "WhatsApp send failed: "@ + "gateway image send failed"@,
        ),
        failure_given(OnFailure::GatewayAudio, status, body, None) == Some(
            "WhatsApp send failed: "@ + "gateway audio send failed"@,
        ),
{
}

/// The reason that is reported is the text called `error` in the JSON document that the body is,
/// white space round it aside. A body that is no document, or has no such text, gives none.
pub proof fn law_reason_is_the_error_in_the_body(
    on_failure: OnFailure,
    status: Seq<char>,
    body: Seq<char>,
    why: Seq<char>,
)
    ensures
        gateway_reason(body) == Some(why) <==> (json::json_in_text(text::trimmed(body)) matches Some(
            reply,
        ) && reply.field("error"@) == Some(JsonTree::Text(why))),
        failure_of(on_failure, status, body) == failure_given(
            on_failure,
            status,
            body,
            gateway_reason(body),
        ),
{
}

/// The media ID of an upload is the text called `id` in the reply; a reply without one is refused.
pub proof fn law_media_id_is_the_id_in_the_reply(reply: JsonTree, id: Seq<char>)
    ensures
        media_id_in(reply) == Ok::<Seq<char>, UploadError>(id) <==> reply.field("id"@) == Some(
            JsonTree::Text(id),
        ),
        media_id_in(reply) matches Err(e) ==> e == UploadError::MissingId,
{
}

/// A body has no members but those that its kind of post has: the recipient, what is sent, and the
/// message that is answered.
pub proof fn law_bodies_say_nothing_else(
    gateway_url: Seq<char>,
    phone_number_id: Seq<char>,
    to: Seq<char>,
    content: Seq<char>,
    caption: Option<Seq<char>>,
    ptt: bool,
    kind: Seq<char>,
    payload: Seq<(Seq<char>, JsonTree)>,
    reply_to: Option<Seq<char>>,
    on_failure: OnFailure,
    name: Seq<char>,
)
    requires
        name != "to"@,
        name != "reply_to"@,
    ensures
        name != "text"@ ==> gateway_text(gateway_url, to, content, reply_to).body.field(
            name,
        ) is None,
        name != "image_url"@ && name != "caption"@ ==> gateway_image(
            gateway_url,
            to,
            content,
            caption,
            reply_to,
        ).body.field(name) is None,
        name != "audio_url"@ && name != "ptt"@ ==> gateway_audio(
            gateway_url,
            to,
            content,
            ptt,
            reply_to,
        ).body.field(name) is None,
        name != "messaging_product"@ && name != "type"@ && name != kind && name != "context"@
            ==> cloud_message(
            phone_number_id,
            to,
            kind,
            payload,
            reply_to,
            on_failure,
        ).body.field(name) is None,
{
    if name != "text"@ {
        json::lemma_member_absent(
            gateway_text(gateway_url, to, content, reply_to).body->Object_0,
            name,
        );
    }
    if name != "image_url"@ && name != "caption"@ {
        json::lemma_member_absent(
            gateway_image(gateway_url, to, content, caption, reply_to).body->Object_0,
            name,
        );
    }
    if name != "audio_url"@ && name != "ptt"@ {
        json::lemma_member_absent(
            gateway_audio(gateway_url, to, content, ptt, reply_to).body->Object_0,
            name,
        );
    }
    if name != "messaging_product"@ && name != "type"@ && name != kind && name != "context"@ {
        json::lemma_member_absent(
            cloud_message(
                phone_number_id,
                to,
                kind,
                payload,
                reply_to,
                on_failure,
            ).body->Object_0,
            name,
        );
    }
}

/// The Cloud API is found under one address; the phone number ID and the endpoint follow.
pub proof fn law_cloud_address(phone_number_id: Seq<char>, endpoint: Seq<char>)
    ensures
        cloud_url(phone_number_id, endpoint) == "https://graph.facebook.com/v21.0/"@
            + phone_number_id + endpoint,
{
}

/// Every piece of a text has a post of its own, in the same order, in either mode.
pub proof fn law_one_post_per_piece(
    gateway_url: Seq<char>,
    phone_number_id: Seq<char>,
    to: Seq<char>,
    pieces: Seq<Seq<char>>,
    reply_to: Option<Seq<char>>,
    i: int,
)
    requires
        0 <= i < pieces.len(),
    ensures
        gateway_texts(gateway_url, to, pieces, reply_to).len() == pieces.len(),
        carried_text(gateway_texts(gateway_url, to, pieces, reply_to)[i]) == Some(pieces[i]),
        cloud_texts(phone_number_id, to, pieces, reply_to).len() == pieces.len(),
        carried_text(cloud_texts(phone_number_id, to, pieces, reply_to)[i]) == Some(pieces[i]),
{
    let quoted = if i == 0 {
        reply_to
    } else {
        None
    };
    lemma_gateway_text_fields(gateway_url, to, pieces[i], quoted);
    lemma_cloud_text_fields(phone_number_id, to, pieces[i], quoted);
}

/// What is said of requests is said of each of them, in the same order, and of each of its fields.
pub proof fn law_views_show_every_field(requests: Seq<Request>, i: int)
    requires
        0 <= i < requests.len(),
    ensures
        posts(requests).len() == requests.len(),
        posts(requests)[i].url == requests[i].url@,
        posts(requests)[i].authorized == requests[i].authorized,
        posts(requests)[i].body == requests[i].body@,
        posts(requests)[i].on_failure == requests[i].on_failure,
{
}

/// What goes as a text is delivered whole, however long it is: the pieces that the posts carry,
/// one after the other, are the text, the line that names a file, or the line that says that the
/// content is not supported.
pub proof fn law_what_goes_as_text_is_delivered_whole<P>(
    s: Settings,
    to: Seq<char>,
    content: ChannelContent<P>,
    shown: Seq<char>,
    reply_to: Option<Seq<char>>,
    spooled: Seq<char>,
)
    requires
        s.gateway_url is Some ==> {
            &&& !(content is Voice) && !(content is Audio) && !(content is Image)
            &&& content matches ChannelContent::FileData { mime_type, .. }
                ==> !"audio/"@.is_prefix_of(mime_type@)
            &&& content matches ChannelContent::Text(t) ==> shown == t@
            &&& content matches ChannelContent::File { filename, .. } ==> shown == "(File: "@
                + filename@ + " — not supported in Web mode)"@
            &&& !(content is Text) && !(content is File) ==> shown
                == "(Unsupported content type in Web mode)"@
        },
        s.gateway_url is None ==> {
            &&& !(content is Voice) && !(content is Image) && !(content is File) && !(
            content is Location)
            &&& content matches ChannelContent::Text(t) ==> shown == t@
            &&& !(content is Text) ==> shown == "(Unsupported content type)"@
        },
    ensures
        ({
            let all = planned_posts(s, to, content, reply_to, spooled);
            let pieces = Seq::new(
                all.len(),
                |i: int|
                    match carried_text(all[i]) {
                        Some(t) => t,
                        None => Seq::empty(),
                    },
            );
            text::joined(pieces, Seq::empty()) == shown
        }),
{
    let all = planned_posts(s, to, content, reply_to, spooled);
    let pieces = Seq::new(
        all.len(),
        |i: int|
            match carried_text(all[i]) {
                Some(t) => t,
                None => Seq::empty(),
            },
    );
    let cut = pieces_of(shown);
    types::law_chunks_are_the_message(shown, MAX_MESSAGE_LEN as nat);
    match s.gateway_url {
        Some(gateway_url) => {
            assert(all == gateway_texts(gateway_url, to, cut, reply_to));
        },
        None => {
            assert(all == cloud_texts(s.phone_number_id, to, cut, reply_to));
        },
    }
    assert forall|i: int| 0 <= i < all.len() implies pieces[i] == cut[i] by {
        let gateway_url = match s.gateway_url {
            Some(url) => url,
            None => to,
        };
        law_one_post_per_piece(gateway_url, s.phone_number_id, to, cut, reply_to, i);
    }
    assert(pieces =~= cut);
}

} // verus!
