use vstd::prelude::*;
use vstd::string::*;
use crate::config::{Bot, Config};
use crate::ledger::{entry_of, Ledger};
use crate::media::{caption_timestamped_spec, clean_filename_spec, Media, MediaType};
use crate::text::{dec_int, dec_nat, decimal, push_decimal};

verus! {

/// Files of this size or larger are announced in text instead of attached.
pub const OVERSIZE_BYTES: u64 = 52428800;

/// An archived message, with its time as seconds since the Unix epoch.
#[derive(Clone, Debug)]
pub struct Message {
    pub id: i64,
    pub user_name: String,
    pub user_id: i64,
    pub date: i64,
    pub reply_to: Option<i64>,
    pub reply_to_new_id: Option<i64>,
    pub text: String,
    pub media: Option<Media>,
}

/// A stored attachment file that was found for a message: its path and size.
#[derive(Clone, Debug)]
pub struct StoredFile {
    pub path: String,
    pub size: u64,
}

/// What one publish call carries.
#[derive(Clone, Debug)]
pub enum Payload {
    Text { text: String },
    Photo { caption: String, path: String, file_name: String, mime_type: Option<String> },
    Document { caption: String, path: String, file_name: String, mime_type: Option<String> },
}

/// One publish call: the bot that makes it, the target chat, the reply
/// target (empty for none) and the payload.
#[derive(Clone, Debug)]
pub struct Request {
    pub token: String,
    pub chat_id: i64,
    pub reply_to: String,
    pub payload: Payload,
}

pub open spec fn opt_view(o: Option<String>) -> Option<Seq<char>> {
    match o {
        Some(s) => Some(s@),
        None => None,
    }
}

/// The contents of a payload, as plain sequences.
pub enum PayloadView {
    Text { text: Seq<char> },
    Photo { caption: Seq<char>, path: Seq<char>, file_name: Seq<char>, mime_type: Option<Seq<char>> },
    Document {
        caption: Seq<char>,
        path: Seq<char>,
        file_name: Seq<char>,
        mime_type: Option<Seq<char>>,
    },
}

impl View for Payload {
    type V = PayloadView;

    open spec fn view(&self) -> PayloadView {
        match self {
            Payload::Text { text } => PayloadView::Text { text: text@ },
            Payload::Photo { caption, path, file_name, mime_type } => PayloadView::Photo {
                caption: caption@,
                path: path@,
                file_name: file_name@,
                mime_type: opt_view(*mime_type),
            },
            Payload::Document { caption, path, file_name, mime_type } => PayloadView::Document {
                caption: caption@,
                path: path@,
                file_name: file_name@,
                mime_type: opt_view(*mime_type),
            },
        }
    }
}

/// Some bot of `bots` has the key `k`.
pub open spec fn has_bot(bots: Seq<Bot>, k: Option<i64>) -> bool {
    exists|i: int| 0 <= i < bots.len() && bots[i].0 == k
}

/// `i` is the first bot of `bots` with the key `k`.
pub open spec fn is_first_bot(bots: Seq<Bot>, k: Option<i64>, i: int) -> bool {
    0 <= i < bots.len() && bots[i].0 == k && forall|j: int| 0 <= j < i ==> bots[j].0 != k
}

/// The bot that speaks for `uid`: its own if configured, else the first
/// default bot.
pub open spec fn bot_token_is(bots: Seq<Bot>, uid: i64, t: Seq<char>) -> bool {
    if has_bot(bots, Some(uid)) {
        exists|i: int| is_first_bot(bots, Some(uid), i) && bots[i].1@ == t
    } else {
        exists|i: int| is_first_bot(bots, None, i) && bots[i].1@ == t
    }
}

/// `<author>:\n`, unless the author is one of the configured bots.
pub open spec fn from_user_spec(m: &Message, c: &Config) -> Seq<char> {
    if has_bot(c.bots@, Some(m.user_id)) {
        Seq::empty()
    } else {
        m.user_name@ + ":\n"@
    }
}

/// The body of a message sent as plain text.
pub open spec fn text_content_spec(m: &Message, c: &Config, stamp: Seq<char>) -> Seq<char> {
    if m.text@.len() > 0 {
        from_user_spec(m, c) + m.text@ + "\n"@ + stamp
    } else {
        "(from "@ + m.user_name@ + ")"@ + "\n"@ + stamp
    }
}

pub open spec fn reply_to_param_spec(m: &Message) -> Seq<char> {
    match m.reply_to_new_id {
        Some(i) => dec_int(i as int),
        None => Seq::empty(),
    }
}

/// The text sent in place of a file too large to attach.
pub open spec fn oversized_text(size: u64, name: Seq<char>, caption: Seq<char>) -> Seq<char> {
    "(oversized file: "@ + dec_nat(size as nat) + " bytes)\n"@ + name + "\n"@ + caption
}

/// The payload for `m`, given the file found for its attachment (if any) and
/// its time stamp; `None` where an attachment cannot be sent.
pub open spec fn payload_spec(
    m: &Message,
    c: &Config,
    file: Option<StoredFile>,
    stamp: Seq<char>,
) -> Option<PayloadView> {
    match m.media {
        None => Some(PayloadView::Text { text: text_content_spec(m, c, stamp) }),
        Some(media) => {
            let cap = caption_timestamped_spec(&media, stamp);
            match media.media_type {
                MediaType::Photo => match file {
                    None => None,
                    Some(f) => match clean_filename_spec(f.path@) {
                        None => None,
                        Some(name) => Some(
                            PayloadView::Photo {
                                caption: cap,
                                path: f.path@,
                                file_name: name,
                                mime_type: opt_view(media.mime_type),
                            },
                        ),
                    },
                },
                MediaType::Document => match file {
                    None => None,
                    Some(f) => match clean_filename_spec(f.path@) {
                        None => None,
                        Some(name) => if f.size >= OVERSIZE_BYTES {
                            Some(PayloadView::Text { text: oversized_text(f.size, name, cap) })
                        } else {
                            Some(
                                PayloadView::Document {
                                    caption: cap,
                                    path: f.path@,
                                    file_name: name,
                                    mime_type: opt_view(media.mime_type),
                                },
                            )
                        },
                    },
                },
                MediaType::Webpage => Some(PayloadView::Text { text: m.text@ + "\n"@ + cap }),
                _ => Some(PayloadView::Text { text: cap }),
            }
        },
    }
}

/// `r` is the publish call for `m`: `None` exactly when no bot can speak for
/// the author or the payload cannot be built.
pub open spec fn request_spec(
    m: &Message,
    c: &Config,
    file: Option<StoredFile>,
    stamp: Seq<char>,
    r: Option<Request>,
) -> bool {
    let can_speak = has_bot(c.bots@, Some(m.user_id)) || has_bot(c.bots@, None);
    match r {
        None => !can_speak || payload_spec(m, c, file, stamp) is None,
        Some(q) => can_speak && bot_token_is(c.bots@, m.user_id, q.token@) && q.chat_id
            == c.chat_id && q.reply_to@ == reply_to_param_spec(m) && payload_spec(
            m,
            c,
            file,
            stamp,
        ) == Some(q.payload@),
    }
}

/// A document whose file is at least the size limit is never attached: it
/// goes out as text, and that text gives the file's size in bytes right after
/// its opening `(oversized file: `.
pub proof fn lemma_oversized_document_is_text(
    m: &Message,
    c: &Config,
    f: StoredFile,
    stamp: Seq<char>,
)
    requires
        m.media matches Some(md) && md.media_type == MediaType::Document,
        f.size >= OVERSIZE_BYTES,
        clean_filename_spec(f.path@) is Some,
    ensures
        payload_spec(m, c, Some(f), stamp) matches Some(PayloadView::Text { text }) && text.subrange(
            17,
            17 + dec_nat(f.size as nat).len() as int,
        ) == dec_nat(f.size as nat),
{
    reveal_strlit("(oversized file: ");
    let md = m.media->0;
    let name = clean_filename_spec(f.path@)->0;
    let cap = caption_timestamped_spec(&md, stamp);
    let d = dec_nat(f.size as nat);
    let t = oversized_text(f.size, name, cap);
    assert(t.subrange(17, 17 + d.len() as int) =~= d);
}

fn copy_opt(o: &Option<String>) -> (r: Option<String>)
    ensures
        opt_view(r) == opt_view(*o),
{
    match o {
        Some(s) => Some(String::from_str(s.as_str())),
        None => None,
    }
}

/// Day number, counting 1 January of year 1 as day 1, of the Unix epoch.
pub const EPOCH_DAY: i64 = 719163;

/// Day numbers of the first and last dates that chrono represents:
/// 1 January of year -262143 and 31 December of year 262142.
pub const FIRST_DAY: i64 = -95746129;

pub const LAST_DAY: i64 = 95745399;

/// Whether chrono's `DateTime::from_timestamp` accepts `secs`: the day that
/// the second falls on lies within chrono's calendar.
pub open spec fn stamp_in_range(secs: i64) -> bool {
    let day = secs / 86400 + EPOCH_DAY;
    FIRST_DAY <= day <= LAST_DAY
}

/// Relies on chrono's `DateTime::from_timestamp`, `with_timezone(&Local)` and
/// `to_rfc3339`: the message time in the machine's time zone. `from_timestamp`
/// gives `None` exactly when the day is outside chrono's calendar; the other
/// two calls always give a result. The text depends on the machine.
#[verifier::external_body]
fn rfc3339_local(secs: i64) -> (r: Option<String>)
    ensures
        r is Some <==> stamp_in_range(secs),
{
    match chrono::DateTime::from_timestamp(secs, 0) {
        Some(d) => Some(d.with_timezone(&chrono::Local).to_rfc3339()),
        None => None,
    }
}

impl Payload {
    /// The method of the channel's API that sends this payload.
    pub fn api(&self) -> (r: &'static str)
        ensures
            r@ == match self {
                Payload::Text { .. } => "sendMessage"@,
                Payload::Photo { .. } => "sendPhoto"@,
                Payload::Document { .. } => "sendDocument"@,
            },
    {
        match self {
            Payload::Text { .. } => "sendMessage",
            Payload::Photo { .. } => "sendPhoto",
            Payload::Document { .. } => "sendDocument",
        }
    }
}

impl Message {
    /// The message time as an RFC 3339 string in the machine's time zone.
    pub fn format_date(&self) -> (r: Option<String>)
        ensures
            r is Some <==> stamp_in_range(self.date),
    {
        rfc3339_local(self.date)
    }

    /// Whether the author is one of the configured bots.
    fn is_bot_author(&self, conf: &Config) -> (r: bool)
        ensures
            r == has_bot(conf.bots@, Some(self.user_id)),
    {
        first_bot(&conf.bots, Some(self.user_id)).is_some()
    }

    /// `<author>:\n`, or nothing when the author is one of the bots.
    pub fn from_user(&self, conf: &Config) -> (r: String)
        ensures
            r@ == from_user_spec(self, conf),
    {
        if self.is_bot_author(conf) {
            String::new()
        } else {
            let mut s = String::from_str(self.user_name.as_str());
            s.append(":\n");
            s
        }
    }

    /// The token of the bot that speaks for the author: the author's own bot,
    /// else the first default bot; `None` when there is neither.
    pub fn pick_bot(&self, conf: &Config) -> (r: Option<String>)
        ensures
            match r {
                Some(t) => bot_token_is(conf.bots@, self.user_id, t@),
                None => !has_bot(conf.bots@, Some(self.user_id)) && !has_bot(conf.bots@, None),
            },
    {
        match first_bot(&conf.bots, Some(self.user_id)) {
            Some(i) => Some(String::from_str(conf.bots[i].1.as_str())),
            None => match first_bot(&conf.bots, None) {
                Some(i) => Some(String::from_str(conf.bots[i].1.as_str())),
                None => None,
            },
        }
    }

    /// The reply target as sent: the new id in decimal, or empty.
    pub fn reply_to_param(&self) -> (r: String)
        ensures
            r@ == reply_to_param_spec(self),
    {
        match self.reply_to_new_id {
            None => String::new(),
            Some(i) => decimal(i),
        }
    }

    /// The body of the message sent as text, with `stamp` below it.
    pub fn text_content(&self, conf: &Config, stamp: &str) -> (r: String)
        ensures
            r@ == text_content_spec(self, conf, stamp@),
    {
        let mut s = if self.text.as_str().unicode_len() > 0 {
            let mut s = self.from_user(conf);
            s.append(self.text.as_str());
            s
        } else {
            let mut s = String::from_str("(from ");
            s.append(self.user_name.as_str());
            s.append(")");
            s
        };
        s.append("\n");
        s.append(stamp);
        s
    }

    /// Translates the reply target through the ledger; a target that was not
    /// published leaves the message without one.
    pub fn parse_reply_to_new_id(&mut self, ledger: &Ledger)
        requires
            ledger.wf(),
        ensures
            final(self).reply_to_new_id == match old(self).reply_to {
                None => None,
                Some(x) => match entry_of(ledger@, x) {
                    Some(e) => e.new_id,
                    None => None,
                },
            },
            final(self).id == old(self).id,
            final(self).reply_to == old(self).reply_to,
            final(self).user_id == old(self).user_id,
            final(self).user_name == old(self).user_name,
            final(self).text == old(self).text,
            final(self).date == old(self).date,
            final(self).media == old(self).media,
    {
        self.reply_to_new_id = match self.reply_to {
            None => None,
            Some(x) => ledger.resolve_new_id(x),
        };
    }

    /// The payload for this message, given the file found for its attachment
    /// and the time stamp.
    pub fn payload(&self, conf: &Config, file: &Option<StoredFile>, stamp: &str) -> (r: Option<
        Payload,
    >)
        ensures
            match r {
                Some(p) => payload_spec(self, conf, *file, stamp@) == Some(p@),
                None => payload_spec(self, conf, *file, stamp@) is None,
            },
    {
        let media = match &self.media {
            None => {
                return Some(Payload::Text { text: self.text_content(conf, stamp) });
            },
            Some(m) => m,
        };
        let cap = media.caption_timestamped(stamp);
        match media.media_type {
            MediaType::Photo => match file {
                None => None,
                Some(f) => match Media::clean_filename(f.path.as_str()) {
                    None => None,
                    Some(name) => Some(
                        Payload::Photo {
                            caption: cap,
                            path: String::from_str(f.path.as_str()),
                            file_name: name,
                            mime_type: copy_opt(&media.mime_type),
                        },
                    ),
                },
            },
            MediaType::Document => match file {
                None => None,
                Some(f) => match Media::clean_filename(f.path.as_str()) {
                    None => None,
                    Some(name) => {
                        if f.size >= OVERSIZE_BYTES {
                            let mut t = String::from_str("(oversized file: ");
                            push_decimal(&mut t, f.size);
                            t.append(" bytes)\n");
                            t.append(name.as_str());
                            t.append("\n");
                            t.append(cap.as_str());
                            Some(Payload::Text { text: t })
                        } else {
                            Some(
                                Payload::Document {
                                    caption: cap,
                                    path: String::from_str(f.path.as_str()),
                                    file_name: name,
                                    mime_type: copy_opt(&media.mime_type),
                                },
                            )
                        }
                    },
                },
            },
            MediaType::Webpage => {
                let mut t = String::from_str(self.text.as_str());
                t.append("\n");
                t.append(cap.as_str());
                Some(Payload::Text { text: t })
            },
            _ => Some(Payload::Text { text: cap }),
        }
    }

    /// The publish call for this message with the time stamp `stamp`.
    pub fn build_request(&self, conf: &Config, file: &Option<StoredFile>, stamp: &str) -> (r:
        Option<Request>)
        ensures
            request_spec(self, conf, *file, stamp@, r),
    {
        let token = match self.pick_bot(conf) {
            Some(t) => t,
            None => return None,
        };
        let payload = match self.payload(conf, file, stamp) {
            Some(p) => p,
            None => return None,
        };
        Some(
            Request {
                token,
                chat_id: conf.chat_id,
                reply_to: self.reply_to_param(),
                payload,
            },
        )
    }

    /// The publish call for this message, stamped with its time in the
    /// machine's time zone; `None` also when that time cannot be written.
    pub fn request(&self, conf: &Config, file: &Option<StoredFile>) -> (r: Option<Request>)
        ensures
            stamp_in_range(self.date) ==> exists|stamp: Seq<char>|
                request_spec(self, conf, *file, stamp, r),
            !stamp_in_range(self.date) ==> r is None,
    {
        match self.format_date() {
            Some(stamp) => {
                let r = self.build_request(conf, file, stamp.as_str());
                proof {
                    assert(request_spec(self, conf, *file, stamp@, r));
                }
                r
            },
            None => None,
        }
    }
}

/// The position of the first bot keyed `k`.
fn first_bot(bots: &Vec<Bot>, k: Option<i64>) -> (r: Option<usize>)
    ensures
        match r {
            Some(i) => is_first_bot(bots@, k, i as int),
            None => !has_bot(bots@, k),
        },
{
    let n = bots.len();
    let mut i: usize = 0;
    while i < n
        invariant
            n == bots@.len(),
            i <= n,
            forall|j: int| 0 <= j < i ==> bots@[j].0 != k,
        decreases n - i,
    {
        if bots[i].0 == k {
            return Some(i);
        }
        i = i + 1;
    }
    None
}

} // verus!
