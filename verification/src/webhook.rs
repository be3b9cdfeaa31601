//! The notification sink: reading the webhook's id and token out of its
//! URL, writing the URL that messages are posted to, and what the sink's
//! answer means for the message that was sent.

pub mod disclosed_reports;
pub mod hall_of_fame;

use vstd::prelude::*;
use crate::client::success_status;
use crate::text::{
    chars_of, decimal, parse_decimal, parse_decimal_chars, parsed_decimal, push_decimal,
};

verus! {

/// A webhook of the sink: its id, which is never 0, and its token.
#[derive(Debug, PartialEq, Eq)]
pub struct Webhook {
    pub id: u64,
    pub token: String,
}

impl Webhook {
    /// Whether the id is one that the sink gives out.
    pub open spec fn well_formed(&self) -> bool {
        self.id != 0
    }
}

impl Clone for Webhook {
    fn clone(&self) -> (r: Webhook)
        ensures
            r == *self,
    {
        Webhook { id: self.id, token: self.token.clone() }
    }
}

/// The scheme that a webhook URL may start with.
pub open spec fn scheme() -> Seq<char> {
    seq!['h', 't', 't', 'p', 's', ':', '/', '/']
}

/// The first of the two words that lead to a webhook in the path of its
/// URL.
pub open spec fn api_word() -> Seq<char> {
    seq!['a', 'p', 'i']
}

/// The second of the two words that lead to a webhook in the path of its
/// URL.
pub open spec fn webhooks_word() -> Seq<char> {
    seq!['w', 'e', 'b', 'h', 'o', 'o', 'k', 's']
}

/// Whether `text` starts with `prefix`.
pub open spec fn starts_with(text: Seq<char>, prefix: Seq<char>) -> bool {
    prefix.len() <= text.len() && text.take(prefix.len() as int) == prefix
}

/// The URL without the scheme in front of it, however often it is repeated.
pub open spec fn without_scheme(url: Seq<char>) -> Seq<char>
    decreases url.len(),
{
    if starts_with(url, scheme()) {
        without_scheme(url.skip(8))
    } else {
        url
    }
}

/// The position of the first slash of `text`.
pub open spec fn slash_position(text: Seq<char>) -> Option<int>
    decreases text.len(),
{
    if text.len() == 0 {
        None
    } else if text[0] == '/' {
        Some(0)
    } else {
        match slash_position(text.drop_first()) {
            Some(i) => Some(i + 1),
            None => None,
        }
    }
}

/// The first segment of a path: what stands before its first slash, or all
/// of it.
pub open spec fn segment(path: Seq<char>) -> Seq<char> {
    match slash_position(path) {
        Some(i) => path.take(i),
        None => path,
    }
}

/// What stands behind the first slash of a path.
pub open spec fn behind_segment(path: Seq<char>) -> Option<Seq<char>> {
    match slash_position(path) {
        Some(i) => Some(path.skip(i + 1)),
        None => None,
    }
}

/// The id and token that `url` names. A webhook URL is the host, `api`,
/// `webhooks`, the id as a decimal numeral other than 0, and the token,
/// with a slash between each; the scheme in front and what follows the
/// token behind a further slash do not count.
pub open spec fn webhook_in(url: Seq<char>) -> Option<(u64, Seq<char>)> {
    let host_on = without_scheme(url);
    match behind_segment(host_on) {
        None => None,
        Some(api_on) => match behind_segment(api_on) {
            None => None,
            Some(webhooks_on) => match behind_segment(webhooks_on) {
                None => None,
                Some(id_on) => match behind_segment(id_on) {
                    None => None,
                    Some(token_on) => match parsed_decimal(segment(id_on)) {
                        None => None,
                        Some(id) => if segment(api_on) == api_word() && segment(webhooks_on)
                            == webhooks_word() && id != 0 {
                            Some((id, segment(token_on)))
                        } else {
                            None
                        },
                    },
                },
            },
        },
    }
}

/// A slash position is the first one.
pub proof fn lemma_slash_position(text: Seq<char>)
    ensures
        match slash_position(text) {
            Some(i) => 0 <= i < text.len() && text[i] == '/' && forall|j: int|
                0 <= j < i ==> text[j] != '/',
            None => forall|j: int| 0 <= j < text.len() ==> text[j] != '/',
        },
    decreases text.len(),
{
    if text.len() > 0 && text[0] != '/' {
        let rest = text.drop_first();
        lemma_slash_position(rest);
        match slash_position(rest) {
            Some(i) => {
                assert forall|j: int| 0 <= j < i + 1 implies text[j] != '/' by {
                    if j > 0 {
                        assert(rest[j - 1] == text[j]);
                    }
                }
            },
            None => {
                assert forall|j: int| 0 <= j < text.len() implies text[j] != '/' by {
                    if j > 0 {
                        assert(rest[j - 1] == text[j]);
                    }
                }
            },
        }
    }
}

/// The first position that is a slash determines the slash position.
pub proof fn lemma_slash_found(text: Seq<char>, at: int)
    requires
        0 <= at <= text.len(),
        forall|j: int| 0 <= j < at ==> text[j] != '/',
        at < text.len() ==> text[at] == '/',
    ensures
        slash_position(text) == if at < text.len() {
            Some(at)
        } else {
            None::<int>
        },
{
    lemma_slash_position(text);
}

/// Whether the characters of `chars` from `from` up to `to` spell `word`.
fn spells(chars: &Vec<char>, from: usize, to: usize, word: &Vec<char>) -> (r: bool)
    requires
        from <= to <= chars.len(),
    ensures
        r == (chars@.subrange(from as int, to as int) == word@),
{
    if to - from != word.len() {
        return false;
    }
    let mut i: usize = 0;
    while i < word.len()
        invariant
            from <= to <= chars.len(),
            to - from == word.len(),
            i <= word.len(),
            forall|j: int| 0 <= j < i ==> chars@[from + j] == word@[j],
        decreases word.len() - i,
    {
        if chars[from + i] != word[i] {
            assert(chars@.subrange(from as int, to as int)[i as int] != word@[i as int]);
            return false;
        }
        i += 1;
    }
    assert(chars@.subrange(from as int, to as int) =~= word@);
    true
}

/// The position of the first slash of `chars` at or behind `from`.
fn find_slash(chars: &Vec<char>, from: usize) -> (r: Option<usize>)
    requires
        from <= chars.len(),
    ensures
        match r {
            Some(at) => from <= at < chars.len() && slash_position(chars@.skip(from as int))
                == Some(at - from),
            None => slash_position(chars@.skip(from as int)).is_none(),
        },
{
    let ghost text = chars@.skip(from as int);
    let mut at: usize = from;
    while at < chars.len()
        invariant
            from <= at <= chars.len(),
            text == chars@.skip(from as int),
            forall|j: int| 0 <= j < at - from ==> text[j] != '/',
        decreases chars.len() - at,
    {
        if chars[at] == '/' {
            proof {
                lemma_slash_found(text, at - from);
            }
            return Some(at);
        }
        at += 1;
    }
    proof {
        lemma_slash_found(text, at - from);
    }
    None
}

/// Skips the scheme in front of a URL, however often it is repeated.
fn skip_scheme(chars: &Vec<char>) -> (at: usize)
    ensures
        at <= chars.len(),
        chars@.skip(at as int) == without_scheme(chars@),
{
    let word = chars_of("https://");
    proof {
        reveal_strlit("https://");
        assert(word@ =~= scheme());
    }
    let mut at: usize = 0;
    assert(chars@.skip(0) =~= chars@);
    while chars.len() - at >= 8 && spells(chars, at, at + 8, &word)
        invariant
            at <= chars.len(),
            word@ == scheme(),
            without_scheme(chars@.skip(at as int)) == without_scheme(chars@),
        decreases chars.len() - at,
    {
        proof {
            let rest = chars@.skip(at as int);
            assert(rest.take(8) =~= chars@.subrange(at as int, at + 8));
            assert(rest.skip(8) =~= chars@.skip(at + 8));
        }
        at += 8;
    }
    proof {
        let rest = chars@.skip(at as int);
        if chars.len() - at >= 8 {
            assert(rest.take(8) =~= chars@.subrange(at as int, at + 8));
        }
    }
    at
}

/// Where the segment that starts at `from` ends, and where the next one
/// starts if a slash follows.
fn next_segment(chars: &Vec<char>, from: usize) -> (r: (usize, Option<usize>))
    requires
        from <= chars.len(),
    ensures
        from <= r.0 <= chars.len(),
        chars@.subrange(from as int, r.0 as int) == segment(chars@.skip(from as int)),
        match r.1 {
            Some(next) => next == r.0 + 1 && next <= chars.len() && behind_segment(
                chars@.skip(from as int),
            ) == Some(chars@.skip(next as int)),
            None => behind_segment(chars@.skip(from as int)).is_none(),
        },
{
    let ghost rest = chars@.skip(from as int);
    match find_slash(chars, from) {
        Some(slash) => {
            assert(chars@.subrange(from as int, slash as int) =~= rest.take(slash - from));
            assert(chars@.skip(slash + 1) =~= rest.skip(slash - from + 1));
            (slash, Some(slash + 1))
        },
        None => {
            assert(chars@.subrange(from as int, chars@.len() as int) =~= rest);
            (chars.len(), None)
        },
    }
}

/// Reads the id and token of a webhook out of its URL, such as
/// `https://host/api/webhooks/17/token`.
pub fn extract_webhook(url: &str) -> (r: Option<Webhook>)
    ensures
        match r {
            Some(webhook) => webhook_in(url@) == Some((webhook.id, webhook.token@))
                && webhook.well_formed(),
            None => webhook_in(url@).is_none(),
        },
{
    let chars = chars_of(url);
    let host_on = skip_scheme(&chars);
    let (_, host_next) = next_segment(&chars, host_on);
    let api_on = match host_next {
        Some(next) => next,
        None => {
            return None;
        },
    };
    let (api_end, api_next) = next_segment(&chars, api_on);
    let webhooks_on = match api_next {
        Some(next) => next,
        None => {
            return None;
        },
    };
    let (webhooks_end, webhooks_next) = next_segment(&chars, webhooks_on);
    let id_on = match webhooks_next {
        Some(next) => next,
        None => {
            return None;
        },
    };
    let (id_end, id_next) = next_segment(&chars, id_on);
    let token_on = match id_next {
        Some(next) => next,
        None => {
            return None;
        },
    };
    let (token_end, _) = next_segment(&chars, token_on);
    let api = chars_of("api");
    let webhooks = chars_of("webhooks");
    proof {
        reveal_strlit("api");
        reveal_strlit("webhooks");
        assert(api@ =~= api_word());
        assert(webhooks@ =~= webhooks_word());
    }
    if !spells(&chars, api_on, api_end, &api) {
        return None;
    }
    if !spells(&chars, webhooks_on, webhooks_end, &webhooks) {
        return None;
    }
    match parse_decimal_chars(&chars, id_on, id_end) {
        Some(id) => {
            if id == 0 {
                return None;
            }
            let token = String::from_str(url.substring_char(token_on, token_end));
            Some(Webhook { id, token })
        },
        None => None,
    }
}

/// The address that messages for `webhook` are posted to.
pub open spec fn webhook_address(id: u64, token: Seq<char>) -> Seq<char> {
    "https://discord.com/api/v9/webhooks/"@ + decimal(id as nat) + "/"@ + token + "?wait=true"@
}

/// The address that messages for `webhook` are posted to.
pub fn webhook_url(webhook: &Webhook) -> (url: String)
    ensures
        url@ == webhook_address(webhook.id, webhook.token@),
{
    let mut url = String::from_str("https://discord.com/api/v9/webhooks/");
    push_decimal(&mut url, webhook.id);
    url.append("/");
    url.append(webhook.token.as_str());
    url.append("?wait=true");
    url
}

/// The seconds after which a message that got no answer is given up.
pub const SEND_TIMEOUT: u64 = 5;

/// The status with which the sink says that it takes no more messages for
/// now.
pub const RATE_LIMITED: u16 = 429;

/// What the sink answered to a message: the status, and the text of the
/// `retry-after` header where it sent one.
#[derive(Debug, PartialEq, Eq)]
pub struct SinkResponse {
    pub status: u16,
    pub retry_after: Option<String>,
}

/// Why a message will not be delivered. The pipeline that meets one stops.
#[derive(Debug, Clone, Copy, PartialEq, Eq, Structural)]
pub enum FatalDeliveryError {
    /// The sink could not be reached.
    Unreachable,
    /// The sink limits the rate and names no delay that can be read.
    RateLimitedWithoutDelay,
    /// The sink turned the message down with this status.
    Rejected(u16),
}

/// What becomes of a message after the sink has answered.
#[derive(Debug, Clone, Copy, PartialEq, Eq, Structural)]
pub enum Delivery {
    /// The sink has the message.
    Delivered,
    /// The same message is due again after this many seconds.
    RetryAfter(u64),
    /// The message is given up, and the pipeline with it.
    Failed(FatalDeliveryError),
}

/// The delay that a `retry-after` header names, if it can be read as a
/// number of seconds.
pub open spec fn named_delay(retry_after: Option<String>) -> Option<u64> {
    match retry_after {
        Some(text) => parsed_decimal(text@),
        None => None,
    }
}

/// What an answer of the sink means: a rate limit with a delay that can be
/// read calls for the same message again after that delay, one without is
/// fatal; any other status but success is fatal; success delivers.
pub open spec fn delivery_after(response: SinkResponse) -> Delivery {
    if response.status == RATE_LIMITED {
        match named_delay(response.retry_after) {
            Some(seconds) => Delivery::RetryAfter(seconds),
            None => Delivery::Failed(FatalDeliveryError::RateLimitedWithoutDelay),
        }
    } else if success_status(response.status) {
        Delivery::Delivered
    } else {
        Delivery::Failed(FatalDeliveryError::Rejected(response.status))
    }
}

/// What sending a message came to, where `None` stands for a message that
/// got no answer: that is fatal, and an answer means what it says.
pub open spec fn delivery_of(reply: Option<SinkResponse>) -> Delivery {
    match reply {
        Some(response) => delivery_after(response),
        None => Delivery::Failed(FatalDeliveryError::Unreachable),
    }
}

/// Decides what becomes of a message after it was sent, where `None` stands
/// for a message that got no answer.
pub fn on_reply(reply: &Option<SinkResponse>) -> (r: Delivery)
    ensures
        r == delivery_of(*reply),
{
    match reply {
        Some(response) => on_response(response),
        None => Delivery::Failed(FatalDeliveryError::Unreachable),
    }
}

/// Decides what becomes of a message after the sink has answered.
pub fn on_response(response: &SinkResponse) -> (r: Delivery)
    ensures
        r == delivery_after(*response),
{
    if response.status == RATE_LIMITED {
        let delay = match &response.retry_after {
            Some(text) => parse_decimal(text.as_str()),
            None => None,
        };
        match delay {
            Some(seconds) => Delivery::RetryAfter(seconds),
            None => Delivery::Failed(FatalDeliveryError::RateLimitedWithoutDelay),
        }
    } else if crate::client::is_success(response.status) {
        Delivery::Delivered
    } else {
        Delivery::Failed(FatalDeliveryError::Rejected(response.status))
    }
}

/// One titled entry of a message.
#[derive(Debug, PartialEq, Eq)]
pub struct Field {
    pub name: String,
    pub value: String,
    /// Whether the entry may stand beside its neighbours.
    pub inline: bool,
}

/// A message for the sink, as the parts that it is shown from.
#[derive(Debug, PartialEq, Eq)]
pub struct Message {
    pub color: u32,
    pub title: Option<String>,
    pub url: Option<String>,
    pub description: Option<String>,
    pub fields: Vec<Field>,
    pub footer: Option<String>,
}

/// What a field says.
pub struct FieldView {
    pub name: Seq<char>,
    pub value: Seq<char>,
    pub inline: bool,
}

/// What a message says.
pub struct MessageView {
    pub color: u32,
    pub title: Option<Seq<char>>,
    pub url: Option<Seq<char>>,
    pub description: Option<Seq<char>>,
    pub fields: Seq<FieldView>,
    pub footer: Option<Seq<char>>,
}

/// What an optional text says.
pub open spec fn optional_text(text: Option<String>) -> Option<Seq<char>> {
    match text {
        Some(s) => Some(s@),
        None => None,
    }
}

impl View for Field {
    type V = FieldView;

    open spec fn view(&self) -> FieldView {
        FieldView { name: self.name@, value: self.value@, inline: self.inline }
    }
}

impl View for Message {
    type V = MessageView;

    open spec fn view(&self) -> MessageView {
        MessageView {
            color: self.color,
            title: optional_text(self.title),
            url: optional_text(self.url),
            description: optional_text(self.description),
            fields: Seq::new(self.fields@.len(), |i: int| self.fields@[i]@),
            footer: optional_text(self.footer),
        }
    }
}

} // verus!
