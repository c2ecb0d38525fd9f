//! The transmission message: send options, content, and the aggregate
//! the caller builds through mutators and projects onto the wire JSON
//! shape.

use vstd::prelude::*;

use crate::json::{
    jdata_entries, lemma_jdata_entries_is, lemma_jdata_entries_push, lemma_jdata_seq_is,
    JsonData, JsonValue,
};
use crate::transmission::models::{remove_email, EmailAddress, Recipient, Recipients};

verus! {

/// The decimal digit character for `d` modulo ten.
pub open spec fn decimal_digit(d: int) -> char {
    if d == 0 {
        '0'
    } else if d == 1 {
        '1'
    } else if d == 2 {
        '2'
    } else if d == 3 {
        '3'
    } else if d == 4 {
        '4'
    } else if d == 5 {
        '5'
    } else if d == 6 {
        '6'
    } else if d == 7 {
        '7'
    } else if d == 8 {
        '8'
    } else {
        '9'
    }
}

/// `n`'s last two decimal digits, zero-padded.
pub open spec fn two_digits(n: int) -> Seq<char> {
    seq![decimal_digit(n / 10 % 10), decimal_digit(n % 10)]
}

/// `n`'s last four decimal digits, zero-padded.
pub open spec fn four_digits(n: int) -> Seq<char> {
    seq![
        decimal_digit(n / 1000 % 10),
        decimal_digit(n / 100 % 10),
        decimal_digit(n / 10 % 10),
        decimal_digit(n % 10),
    ]
}

/// The provider's timestamp text: `YYYY-MM-DDThh:mm:ssZ`.
pub open spec fn rfc3339_text(y: int, mo: int, d: int, h: int, mi: int, s: int) -> Seq<char> {
    four_digits(y) + seq!['-'] + two_digits(mo) + seq!['-'] + two_digits(d) + seq!['T']
        + two_digits(h) + seq![':'] + two_digits(mi) + seq![':'] + two_digits(s) + seq!['Z']
}

/// Appends the digit character for `d`.
fn push_decimal_digit(s: &mut String, d: u8)
    requires
        d <= 9,
    ensures
        final(s)@ == old(s)@ + seq![decimal_digit(d as int)],
{
    proof {
        reveal_strlit("0");
        reveal_strlit("1");
        reveal_strlit("2");
        reveal_strlit("3");
        reveal_strlit("4");
        reveal_strlit("5");
        reveal_strlit("6");
        reveal_strlit("7");
        reveal_strlit("8");
        reveal_strlit("9");
    }
    let t: &str = match d {
        0 => "0",
        1 => "1",
        2 => "2",
        3 => "3",
        4 => "4",
        5 => "5",
        6 => "6",
        7 => "7",
        8 => "8",
        _ => "9",
    };
    proof {
        assert(t@ =~= seq![decimal_digit(d as int)]);
    }
    s.append(t);
}

/// Appends `n` as two zero-padded decimal digits.
fn push_two_digits(s: &mut String, n: u8)
    requires
        n <= 99,
    ensures
        final(s)@ == old(s)@ + two_digits(n as int),
{
    push_decimal_digit(s, n / 10);
    push_decimal_digit(s, n % 10);
    proof {
        assert(final(s)@ =~= old(s)@ + two_digits(n as int));
    }
}

/// Appends `n` as four zero-padded decimal digits.
fn push_four_digits(s: &mut String, n: u16)
    requires
        n <= 9999,
    ensures
        final(s)@ == old(s)@ + four_digits(n as int),
{
    push_decimal_digit(s, (n / 1000) as u8);
    push_decimal_digit(s, (n / 100 % 10) as u8);
    push_decimal_digit(s, (n / 10 % 10) as u8);
    push_decimal_digit(s, (n % 10) as u8);
    proof {
        assert(final(s)@ =~= old(s)@ + four_digits(n as int));
    }
}

/// A scheduled start time, held to calendar-field ranges and rendered
/// for the wire as `YYYY-MM-DDThh:mm:ssZ` (UTC, second precision).
#[derive(Debug, Clone, Copy, PartialEq)]
pub struct StartTime {
    year: u16,
    month: u8,
    day: u8,
    hour: u8,
    minute: u8,
    second: u8,
}

impl StartTime {
    /// Field ranges that keep the rendering four-plus-two digit.
    #[verifier::type_invariant]
    pub closed spec fn well_formed(self) -> bool {
        self.year <= 9999 && 1 <= self.month <= 12 && 1 <= self.day <= 31 && self.hour <= 23
            && self.minute <= 59 && self.second <= 59
    }

    /// The timestamp's wire text.
    pub closed spec fn rfc3339(self) -> Seq<char> {
        rfc3339_text(
            self.year as int,
            self.month as int,
            self.day as int,
            self.hour as int,
            self.minute as int,
            self.second as int,
        )
    }

    /// Creates a start time from calendar fields; `None` when a field
    /// is outside its range. Day-of-month overflow beyond 31 is left to
    /// the provider, which validates the calendar date itself.
    pub fn new(year: u16, month: u8, day: u8, hour: u8, minute: u8, second: u8) -> (r: Option<
        StartTime,
    >)
        ensures
            r is Some <==> (year <= 9999 && 1 <= month <= 12 && 1 <= day <= 31 && hour <= 23
                && minute <= 59 && second <= 59),
            r matches Some(t) ==> t.rfc3339() == rfc3339_text(
                year as int,
                month as int,
                day as int,
                hour as int,
                minute as int,
                second as int,
            ),
    {
        if year <= 9999 && 1 <= month && month <= 12 && 1 <= day && day <= 31 && hour <= 23
            && minute <= 59 && second <= 59 {
            Some(StartTime { year, month, day, hour, minute, second })
        } else {
            None
        }
    }

    /// Renders the timestamp as its wire text.
    pub fn rfc3339_string(&self) -> (r: String)
        ensures
            r@ == self.rfc3339(),
    {
        proof {
            use_type_invariant(self);
            reveal_strlit("-");
            reveal_strlit("T");
            reveal_strlit(":");
            reveal_strlit("Z");
        }
        let mut s = String::new();
        push_four_digits(&mut s, self.year);
        s.append("-");
        push_two_digits(&mut s, self.month);
        s.append("-");
        push_two_digits(&mut s, self.day);
        s.append("T");
        push_two_digits(&mut s, self.hour);
        s.append(":");
        push_two_digits(&mut s, self.minute);
        s.append(":");
        push_two_digits(&mut s, self.second);
        s.append("Z");
        proof {
            assert(s@ =~= self.rfc3339());
        }
        s
    }
}

/// Send options for one message: tracking and classification flags and
/// an optional scheduled start time. `sandbox` defaults to `false`
/// here: constructing a message never flags it for sandbox delivery on
/// its own, and callers wanting the safer sandbox behaviour set the
/// flag explicitly.
#[derive(Debug, PartialEq)]
pub struct Options {
    pub open_tracking: bool,
    pub click_tracking: bool,
    pub transactional: bool,
    pub sandbox: bool,
    pub inline_css: bool,
    pub start_time: Option<StartTime>,
}

impl Options {
    /// The wire entries: the five flags, and `start_time` only when
    /// scheduled.
    pub open spec fn wire_entries(self) -> Seq<(Seq<char>, JsonData)> {
        let flags = seq![
            ("open_tracking"@, JsonData::Bool(self.open_tracking)),
            ("click_tracking"@, JsonData::Bool(self.click_tracking)),
            ("transactional"@, JsonData::Bool(self.transactional)),
            ("sandbox"@, JsonData::Bool(self.sandbox)),
            ("inline_css"@, JsonData::Bool(self.inline_css)),
        ];
        match self.start_time {
            Some(t) => flags.push(("start_time"@, JsonData::Str(t.rfc3339()))),
            None => flags,
        }
    }

    /// The wire shape of the options object.
    pub open spec fn wire(self) -> JsonData {
        JsonData::Obj(self.wire_entries())
    }

    /// Projects the options onto their wire shape.
    pub fn json(&self) -> (r: JsonValue)
        ensures
            r.jdata() == self.wire(),
    {
        let mut entries: Vec<(String, JsonValue)> = Vec::new();
        entries.push(("open_tracking".to_owned(), JsonValue::Bool(self.open_tracking)));
        entries.push(("click_tracking".to_owned(), JsonValue::Bool(self.click_tracking)));
        entries.push(("transactional".to_owned(), JsonValue::Bool(self.transactional)));
        entries.push(("sandbox".to_owned(), JsonValue::Bool(self.sandbox)));
        entries.push(("inline_css".to_owned(), JsonValue::Bool(self.inline_css)));
        match self.start_time {
            Some(t) => {
                entries.push(("start_time".to_owned(), JsonValue::Str(t.rfc3339_string())));
            },
            None => {},
        }
        proof {
            lemma_jdata_entries_is(entries@, self.wire_entries());
        }
        JsonValue::Obj(entries)
    }
}

impl Default for Options {
    /// Every flag off and no scheduled start time.
    fn default() -> (r: Options)
        ensures
            r == (Options {
                open_tracking: false,
                click_tracking: false,
                transactional: false,
                sandbox: false,
                inline_css: false,
                start_time: None,
            }),
    {
        Options {
            open_tracking: false,
            click_tracking: false,
            transactional: false,
            sandbox: false,
            inline_css: false,
            start_time: None,
        }
    }
}

/// A named, MIME-typed, base64-encoded attachment. This layer checks
/// neither the encoding nor any size limit; the provider does.
#[derive(Debug, PartialEq)]
pub struct Attachment {
    pub name: String,
    pub file_type: String,
    pub data: String,
}

impl Attachment {
    /// The wire shape: the MIME type goes under the key `type`.
    pub open spec fn wire(self) -> JsonData {
        JsonData::Obj(
            seq![
                ("name"@, JsonData::Str(self.name@)),
                ("type"@, JsonData::Str(self.file_type@)),
                ("data"@, JsonData::Str(self.data@)),
            ],
        )
    }

    /// Creates an attachment from its file name, MIME type, and
    /// already-base64-encoded data.
    pub fn from_data(name: &str, file_type: &str, data: &str) -> (r: Attachment)
        ensures
            r.name@ == name@,
            r.file_type@ == file_type@,
            r.data@ == data@,
    {
        Attachment {
            name: name.to_owned(),
            file_type: file_type.to_owned(),
            data: data.to_owned(),
        }
    }

    /// Projects the attachment onto its wire shape.
    pub fn json(&self) -> (r: JsonValue)
        ensures
            r.jdata() == self.wire(),
    {
        let mut entries: Vec<(String, JsonValue)> = Vec::new();
        entries.push(("name".to_owned(), JsonValue::Str(self.name.clone())));
        entries.push(("type".to_owned(), JsonValue::Str(self.file_type.clone())));
        entries.push(("data".to_owned(), JsonValue::Str(self.data.clone())));
        proof {
            lemma_jdata_entries_is(
                entries@,
                seq![
                    ("name"@, JsonData::Str(self.name@)),
                    ("type"@, JsonData::Str(self.file_type@)),
                    ("data"@, JsonData::Str(self.data@)),
                ],
            );
        }
        JsonValue::Obj(entries)
    }
}

impl<'a> From<&'a Attachment> for Attachment {
    /// A fresh attachment with the same name, MIME type and data.
    fn from(attachment: &'a Attachment) -> (r: Attachment)
        ensures
            r == *attachment,
    {
        Attachment {
            name: attachment.name.clone(),
            file_type: attachment.file_type.clone(),
            data: attachment.data.clone(),
        }
    }
}

impl<'a> vstd::std_specs::convert::FromSpecImpl<&'a Attachment> for Attachment {
    open spec fn obeys_from_spec() -> bool {
        true
    }

    open spec fn from_spec(v: &'a Attachment) -> Attachment {
        *v
    }
}

/// The message's content: sender, subject, optional body variants or
/// template reference, optional tags, and attachments.
#[derive(Debug, PartialEq)]
pub struct Content {
    pub from: EmailAddress,
    pub subject: String,
    pub tags: Option<Vec<String>>,
    pub text: Option<String>,
    pub html: Option<String>,
    pub template_id: Option<String>,
    pub attachments: Vec<Attachment>,
}

impl Content {
    /// The wire entries: `from` and `subject` always; `tags`, `text`,
    /// `html` and `template_id` only when set; `attachments` only when
    /// non-empty.
    pub open spec fn wire_entries(self) -> Seq<(Seq<char>, JsonData)> {
        let e0 = seq![
            ("from"@, self.from.wire()),
            ("subject"@, JsonData::Str(self.subject@)),
        ];
        let e1 = match self.tags {
            Some(ts) => e0.push(
                ("tags"@, JsonData::Arr(Seq::new(ts@.len(), |i: int| JsonData::Str(ts@[i]@)))),
            ),
            None => e0,
        };
        let e2 = match self.text {
            Some(t) => e1.push(("text"@, JsonData::Str(t@))),
            None => e1,
        };
        let e3 = match self.html {
            Some(h) => e2.push(("html"@, JsonData::Str(h@))),
            None => e2,
        };
        let e4 = match self.template_id {
            Some(t) => e3.push(("template_id"@, JsonData::Str(t@))),
            None => e3,
        };
        if self.attachments@.len() > 0 {
            e4.push(
                (
                    "attachments"@,
                    JsonData::Arr(
                        Seq::new(self.attachments@.len(), |i: int| self.attachments@[i].wire()),
                    ),
                ),
            )
        } else {
            e4
        }
    }

    /// The wire shape of the content object.
    pub open spec fn wire(self) -> JsonData {
        JsonData::Obj(self.wire_entries())
    }

    /// Projects the content onto its wire shape.
    #[verifier::loop_isolation(false)]
    pub fn json(&self) -> (r: JsonValue)
        ensures
            r.jdata() == self.wire(),
    {
        broadcast use lemma_jdata_entries_push;

        let mut entries: Vec<(String, JsonValue)> = Vec::new();
        proof {
            assert(jdata_entries(entries@) =~= Seq::<(Seq<char>, JsonData)>::empty());
        }
        entries.push(("from".to_owned(), self.from.json()));
        entries.push(("subject".to_owned(), JsonValue::Str(self.subject.clone())));
        match &self.tags {
            Some(ts) => {
                let mut arr: Vec<JsonValue> = Vec::new();
                let mut i: usize = 0;
                while i < ts.len()
                    invariant
                        0 <= i <= ts@.len(),
                        arr@.len() == i,
                        forall|j: int| 0 <= j < i ==> arr@[j].jdata() == JsonData::Str(ts@[j]@),
                    decreases ts@.len() - i,
                {
                    arr.push(JsonValue::Str(ts[i].clone()));
                    i = i + 1;
                }
                proof {
                    lemma_jdata_seq_is(arr@, Seq::new(ts@.len(), |k: int| JsonData::Str(ts@[k]@)));
                }
                entries.push(("tags".to_owned(), JsonValue::Arr(arr)));
            },
            None => {},
        }
        match &self.text {
            Some(t) => {
                entries.push(("text".to_owned(), JsonValue::Str(t.clone())));
            },
            None => {},
        }
        match &self.html {
            Some(h) => {
                entries.push(("html".to_owned(), JsonValue::Str(h.clone())));
            },
            None => {},
        }
        match &self.template_id {
            Some(t) => {
                entries.push(("template_id".to_owned(), JsonValue::Str(t.clone())));
            },
            None => {},
        }
        if self.attachments.len() > 0 {
            let mut arr: Vec<JsonValue> = Vec::new();
            let mut i: usize = 0;
            while i < self.attachments.len()
                invariant
                    0 <= i <= self.attachments@.len(),
                    arr@.len() == i,
                    forall|j: int| 0 <= j < i ==> arr@[j].jdata() == self.attachments@[j].wire(),
                decreases self.attachments@.len() - i,
            {
                arr.push(self.attachments[i].json());
                i = i + 1;
            }
            proof {
                lemma_jdata_seq_is(
                    arr@,
                    Seq::new(self.attachments@.len(), |k: int| self.attachments@[k].wire()),
                );
            }
            entries.push(("attachments".to_owned(), JsonValue::Arr(arr)));
        }
        proof {
            assert(jdata_entries(entries@) =~= self.wire_entries());
        }
        JsonValue::Obj(entries)
    }
}

impl Default for Content {
    /// The default sender address, an empty subject, no bodies, no
    /// tags, no template, no attachments.
    fn default() -> (r: Content)
        ensures
            r.from.email@ == Seq::<char>::empty(),
            r.from.name is None,
            r.subject@ == Seq::<char>::empty(),
            r.tags is None,
            r.text is None,
            r.html is None,
            r.template_id is None,
            r.attachments@ == Seq::<Attachment>::empty(),
    {
        Content {
            from: EmailAddress::default(),
            subject: String::new(),
            tags: None,
            text: None,
            html: None,
            template_id: None,
            attachments: Vec::new(),
        }
    }
}

/// One transmission: options, optional description, campaign id,
/// metadata and message-wide substitution data, the recipient set, and
/// the content. Built by a caller through the mutators, then projected
/// onto the wire shape by `json`.
#[derive(Debug)]
pub struct Message {
    pub options: Options,
    pub description: Option<String>,
    pub campaign_id: Option<String>,
    pub metadata: Option<JsonValue>,
    pub substitution_data: Option<JsonValue>,
    pub recipients: Recipients,
    pub content: Content,
}

impl Message {
    /// The wire entries: `options`, `recipients` and `content` always;
    /// `description`, `campaign_id`, `metadata` and `substitution_data`
    /// only when set.
    pub open spec fn wire_entries(self) -> Seq<(Seq<char>, JsonData)> {
        let e0 = seq![("options"@, self.options.wire())];
        let e1 = match self.description {
            Some(d) => e0.push(("description"@, JsonData::Str(d@))),
            None => e0,
        };
        let e2 = match self.campaign_id {
            Some(c) => e1.push(("campaign_id"@, JsonData::Str(c@))),
            None => e1,
        };
        let e3 = match self.metadata {
            Some(m) => e2.push(("metadata"@, m.jdata())),
            None => e2,
        };
        let e4 = match self.substitution_data {
            Some(d) => e3.push(("substitution_data"@, d.jdata())),
            None => e3,
        };
        let e5 = e4.push(("recipients"@, self.recipients.wire()));
        e5.push(("content"@, self.content.wire()))
    }

    /// The wire shape of the whole message.
    pub open spec fn wire(self) -> JsonData {
        JsonData::Obj(self.wire_entries())
    }

    /// Every field other than the sender and the options at its
    /// default: nothing optional set, an empty local recipient list,
    /// empty subject, no bodies, no attachments.
    pub open spec fn fresh(self) -> bool {
        &&& self.description is None
        &&& self.campaign_id is None
        &&& self.metadata is None
        &&& self.substitution_data is None
        &&& self.recipients matches Recipients::LocalList(l) && l@ == Seq::<Recipient>::empty()
        &&& self.content.subject@ == Seq::<char>::empty()
        &&& self.content.tags is None
        &&& self.content.text is None
        &&& self.content.html is None
        &&& self.content.template_id is None
        &&& self.content.attachments@ == Seq::<Attachment>::empty()
    }

    /// Creates a message with the given sender; every other field at
    /// its default.
    pub fn new(sender_address: EmailAddress) -> (r: Message)
        ensures
            r.fresh(),
            r.content.from == sender_address,
            r.options == (Options {
                open_tracking: false,
                click_tracking: false,
                transactional: false,
                sandbox: false,
                inline_css: false,
                start_time: None,
            }),
    {
        let mut message = Message::default();
        message.content.from = sender_address;
        message
    }

    /// Creates a message with the given sender and options; every
    /// other field at its default.
    pub fn with_options(sender_address: EmailAddress, options: Options) -> (r: Message)
        ensures
            r.fresh(),
            r.content.from == sender_address,
            r.options == options,
    {
        let mut message = Message::default();
        message.options = options;
        message.content.from = sender_address;
        message
    }

    /// Replaces the recipient set with a reference to the provider-side
    /// stored list of the given name, discarding any local recipients.
    pub fn recipient_list(&mut self, list_name: &str)
        ensures
            *final(self) == (Message { recipients: final(self).recipients, ..*old(self) }),
            final(self).recipients matches Recipients::ListName(n) && n@ == list_name@,
    {
        self.recipients = Recipients::ListName(list_name.to_owned());
    }

    /// Adds a recipient. A stored-list reference is discarded in favour
    /// of a fresh one-element local list; in a local list, any entry
    /// with the same address (exact string match) is removed and the
    /// new recipient appended at the end — last write wins, and the
    /// entry moves to the end.
    pub fn add_recipient(&mut self, recipient: Recipient)
        ensures
            *final(self) == (Message { recipients: final(self).recipients, ..*old(self) }),
            match old(self).recipients {
                Recipients::ListName(_) => final(self).recipients matches Recipients::LocalList(l)
                    && l@ == seq![recipient],
                Recipients::LocalList(ol) => final(self).recipients matches Recipients::LocalList(l)
                    && l@ == remove_email(ol@, recipient.address.email@).push(recipient),
            },
    {
        let mut cur: Recipients = Recipients::LocalList(Vec::new());
        core::mem::swap(&mut cur, &mut self.recipients);
        match cur {
            Recipients::ListName(_) => {
                let mut v: Vec<Recipient> = Vec::new();
                v.push(recipient);
                self.recipients = Recipients::LocalList(v);
            },
            Recipients::LocalList(list) => {
                let mut deduped = remove_email_exec(list, &recipient.address.email);
                deduped.push(recipient);
                self.recipients = Recipients::LocalList(deduped);
            },
        }
    }

    /// Sets the subject.
    pub fn subject(&mut self, subject: &str)
        ensures
            *final(self) == (Message {
                content: (Content { subject: final(self).content.subject, ..old(self).content }),
                ..*old(self)
            }),
            final(self).content.subject@ == subject@,
    {
        self.content.subject = subject.to_owned();
    }

    /// Sets the options.
    pub fn options(&mut self, options: Options)
        ensures
            *final(self) == (Message { options, ..*old(self) }),
    {
        self.options = options;
    }

    /// Sets the HTML body.
    pub fn html(&mut self, html: &str)
        ensures
            *final(self) == (Message {
                content: (Content { html: final(self).content.html, ..old(self).content }),
                ..*old(self)
            }),
            final(self).content.html matches Some(h) && h@ == html@,
    {
        self.content.html = Some(html.to_owned());
    }

    /// Sets the plain-text body.
    pub fn text(&mut self, text: &str)
        ensures
            *final(self) == (Message {
                content: (Content { text: final(self).content.text, ..old(self).content }),
                ..*old(self)
            }),
            final(self).content.text matches Some(t) && t@ == text@,
    {
        self.content.text = Some(text.to_owned());
    }

    /// Sets the campaign id.
    pub fn campaign_id(&mut self, campaign_id: &str)
        ensures
            *final(self) == (Message { campaign_id: final(self).campaign_id, ..*old(self) }),
            final(self).campaign_id matches Some(c) && c@ == campaign_id@,
    {
        self.campaign_id = Some(campaign_id.to_owned());
    }

    /// Sets the template id for the content.
    pub fn template_id(&mut self, template_id: &str)
        ensures
            *final(self) == (Message {
                content: (Content {
                    template_id: final(self).content.template_id,
                    ..old(self).content
                }),
                ..*old(self)
            }),
            final(self).content.template_id matches Some(t) && t@ == template_id@,
    {
        self.content.template_id = Some(template_id.to_owned());
    }

    /// Sets the message-wide substitution data.
    pub fn substitution_data(&mut self, data: JsonValue)
        ensures
            *final(self) == (Message { substitution_data: Some(data), ..*old(self) }),
    {
        self.substitution_data = Some(data);
    }

    /// Sets the metadata.
    pub fn metadata(&mut self, data: JsonValue)
        ensures
            *final(self) == (Message { metadata: Some(data), ..*old(self) }),
    {
        self.metadata = Some(data);
    }

    /// Appends an attachment; multiple attachments are allowed.
    pub fn add_attachment(&mut self, attachment: Attachment)
        ensures
            *final(self) == (Message {
                content: (Content {
                    attachments: final(self).content.attachments,
                    ..old(self).content
                }),
                ..*old(self)
            }),
            final(self).content.attachments@ == old(self).content.attachments@.push(attachment),
    {
        self.content.attachments.push(attachment);
    }

    /// Projects the whole message onto its wire shape.
    pub fn json(&self) -> (r: JsonValue)
        ensures
            r.jdata() == self.wire(),
    {
        broadcast use lemma_jdata_entries_push;

        let mut entries: Vec<(String, JsonValue)> = Vec::new();
        proof {
            assert(jdata_entries(entries@) =~= Seq::<(Seq<char>, JsonData)>::empty());
        }
        entries.push(("options".to_owned(), self.options.json()));
        match &self.description {
            Some(d) => {
                entries.push(("description".to_owned(), JsonValue::Str(d.clone())));
            },
            None => {},
        }
        match &self.campaign_id {
            Some(c) => {
                entries.push(("campaign_id".to_owned(), JsonValue::Str(c.clone())));
            },
            None => {},
        }
        match &self.metadata {
            Some(m) => {
                entries.push(("metadata".to_owned(), m.deep_clone()));
            },
            None => {},
        }
        match &self.substitution_data {
            Some(d) => {
                entries.push(("substitution_data".to_owned(), d.deep_clone()));
            },
            None => {},
        }
        entries.push(("recipients".to_owned(), self.recipients.json()));
        entries.push(("content".to_owned(), self.content.json()));
        proof {
            assert(jdata_entries(entries@) =~= self.wire_entries());
        }
        JsonValue::Obj(entries)
    }
}

impl Default for Message {
    /// A message with every field at its default: default options, no
    /// description, campaign id, metadata or substitution data, an
    /// empty local recipient list, and default content.
    fn default() -> (r: Message)
        ensures
            r.fresh(),
            r.content.from.email@ == Seq::<char>::empty(),
            r.content.from.name is None,
            r.options == (Options {
                open_tracking: false,
                click_tracking: false,
                transactional: false,
                sandbox: false,
                inline_css: false,
                start_time: None,
            }),
    {
        Message {
            options: Options::default(),
            description: None,
            campaign_id: None,
            metadata: None,
            substitution_data: None,
            recipients: Recipients::default(),
            content: Content::default(),
        }
    }
}

/// Round trip at the options level: reading the wire object back gives
/// every flag, and the start time exactly when scheduled — an unset
/// start time is absent, not null.
pub proof fn lemma_options_wire_round_trip(o: Options)
    ensures
        o.wire().jget("open_tracking"@) == Some(JsonData::Bool(o.open_tracking)),
        o.wire().jget("click_tracking"@) == Some(JsonData::Bool(o.click_tracking)),
        o.wire().jget("transactional"@) == Some(JsonData::Bool(o.transactional)),
        o.wire().jget("sandbox"@) == Some(JsonData::Bool(o.sandbox)),
        o.wire().jget("inline_css"@) == Some(JsonData::Bool(o.inline_css)),
        o.wire().jget("start_time"@) == (match o.start_time {
            Some(t) => Some(JsonData::Str(t.rfc3339())),
            None => None::<JsonData>,
        }),
{
    broadcast use crate::json::lemma_entries_get_push, crate::json::lemma_entries_get_empty;

    reveal_strlit("open_tracking");
    reveal_strlit("click_tracking");
    reveal_strlit("transactional");
    reveal_strlit("sandbox");
    reveal_strlit("inline_css");
    reveal_strlit("start_time");
    assert("open_tracking"@.len() == 13);
    assert("click_tracking"@.len() == 14);
    assert("transactional"@.len() == 13);
    assert("sandbox"@.len() == 7);
    assert("inline_css"@.len() == 10);
    assert("start_time"@.len() == 10);
    assert("open_tracking"@[0] == 'o' && "transactional"@[0] == 't');
    assert("inline_css"@[0] == 'i' && "start_time"@[0] == 's');
    let f1 = ("open_tracking"@, JsonData::Bool(o.open_tracking));
    let f2 = ("click_tracking"@, JsonData::Bool(o.click_tracking));
    let f3 = ("transactional"@, JsonData::Bool(o.transactional));
    let f4 = ("sandbox"@, JsonData::Bool(o.sandbox));
    let f5 = ("inline_css"@, JsonData::Bool(o.inline_css));
    let chain = Seq::<(Seq<char>, JsonData)>::empty().push(f1).push(f2).push(f3).push(f4).push(f5);
    assert(seq![f1, f2, f3, f4, f5] =~= chain);
}

/// Round trip at the content level: reading the wire object back gives
/// the sender object and the subject, each optional field exactly when
/// set, and the attachments exactly when any were added — unset
/// optional fields are absent, not null.
pub proof fn lemma_content_wire_round_trip(c: Content)
    ensures
        c.wire().jget("from"@) == Some(c.from.wire()),
        c.wire().jget("subject"@) == Some(JsonData::Str(c.subject@)),
        c.wire().jget("tags"@) == (match c.tags {
            Some(ts) => Some(JsonData::Arr(Seq::new(ts@.len(), |i: int| JsonData::Str(ts@[i]@)))),
            None => None::<JsonData>,
        }),
        c.wire().jget("text"@) == (match c.text {
            Some(t) => Some(JsonData::Str(t@)),
            None => None::<JsonData>,
        }),
        c.wire().jget("html"@) == (match c.html {
            Some(h) => Some(JsonData::Str(h@)),
            None => None::<JsonData>,
        }),
        c.wire().jget("template_id"@) == (match c.template_id {
            Some(t) => Some(JsonData::Str(t@)),
            None => None::<JsonData>,
        }),
        c.wire().jget("attachments"@) == (if c.attachments@.len() > 0 {
            Some(
                JsonData::Arr(Seq::new(c.attachments@.len(), |i: int| c.attachments@[i].wire())),
            )
        } else {
            None::<JsonData>
        }),
{
    broadcast use crate::json::lemma_entries_get_push, crate::json::lemma_entries_get_empty;

    reveal_strlit("from");
    reveal_strlit("subject");
    reveal_strlit("tags");
    reveal_strlit("text");
    reveal_strlit("html");
    reveal_strlit("template_id");
    reveal_strlit("attachments");
    assert("from"@.len() == 4);
    assert("subject"@.len() == 7);
    assert("tags"@.len() == 4);
    assert("text"@.len() == 4);
    assert("html"@.len() == 4);
    assert("template_id"@.len() == 11);
    assert("attachments"@.len() == 11);
    assert("from"@[0] == 'f' && "tags"@[0] == 't' && "text"@[0] == 't' && "html"@[0] == 'h');
    assert("tags"@[1] == 'a' && "text"@[1] == 'e');
    assert("template_id"@[0] == 't' && "attachments"@[0] == 'a');
    let e1 = ("from"@, c.from.wire());
    let e2 = ("subject"@, JsonData::Str(c.subject@));
    assert(seq![e1, e2] =~= Seq::<(Seq<char>, JsonData)>::empty().push(e1).push(e2));
}

/// Round trip at the message level: reading the wire object back gives
/// the options, recipients and content objects, and each optional
/// field exactly when set — unset optional fields are absent, not
/// null.
pub proof fn lemma_message_wire_round_trip(m: Message)
    ensures
        m.wire().jget("options"@) == Some(m.options.wire()),
        m.wire().jget("recipients"@) == Some(m.recipients.wire()),
        m.wire().jget("content"@) == Some(m.content.wire()),
        m.wire().jget("description"@) == (match m.description {
            Some(d) => Some(JsonData::Str(d@)),
            None => None::<JsonData>,
        }),
        m.wire().jget("campaign_id"@) == (match m.campaign_id {
            Some(c) => Some(JsonData::Str(c@)),
            None => None::<JsonData>,
        }),
        m.wire().jget("metadata"@) == (match m.metadata {
            Some(x) => Some(x.jdata()),
            None => None::<JsonData>,
        }),
        m.wire().jget("substitution_data"@) == (match m.substitution_data {
            Some(x) => Some(x.jdata()),
            None => None::<JsonData>,
        }),
{
    broadcast use crate::json::lemma_entries_get_push, crate::json::lemma_entries_get_empty;

    reveal_strlit("options");
    reveal_strlit("description");
    reveal_strlit("campaign_id");
    reveal_strlit("metadata");
    reveal_strlit("substitution_data");
    reveal_strlit("recipients");
    reveal_strlit("content");
    assert("options"@.len() == 7);
    assert("description"@.len() == 11);
    assert("campaign_id"@.len() == 11);
    assert("metadata"@.len() == 8);
    assert("substitution_data"@.len() == 17);
    assert("recipients"@.len() == 10);
    assert("content"@.len() == 7);
    assert("options"@[0] == 'o' && "content"@[0] == 'c');
    assert("description"@[0] == 'd' && "campaign_id"@[0] == 'c');
    let e1 = ("options"@, m.options.wire());
    assert(seq![e1] =~= Seq::<(Seq<char>, JsonData)>::empty().push(e1));
}

/// The list with every entry at the given address removed, the rest in
/// their order; used by the recipient-set dedup step.
fn remove_email_exec(list: Vec<Recipient>, email: &String) -> (r: Vec<Recipient>)
    ensures
        r@ == remove_email(list@, email@),
{
    let mut list = list;
    let ghost orig = list@;
    let mut i: usize = 0;
    proof {
        assert(list@.skip(0) =~= list@);
        assert(list@.take(0) =~= Seq::<Recipient>::empty());
    }
    while i < list.len()
        invariant
            0 <= i <= list@.len(),
            remove_email(orig, email@) == list@.take(i as int) + remove_email(
                list@.skip(i as int),
                email@,
            ),
        decreases list@.len() - i,
    {
        proof {
            assert(list@.skip(i as int).first() == list@[i as int]);
        }
        if crate::json::str_eq(list[i].address.email.as_str(), email.as_str()) {
            let ghost before = list@;
            list.remove(i);
            proof {
                assert(before.skip(i as int).drop_first() =~= list@.skip(i as int));
                assert(before.take(i as int) =~= list@.take(i as int));
            }
        } else {
            proof {
                assert(list@.skip(i as int).drop_first() =~= list@.skip(i as int + 1));
                assert(list@.take(i as int + 1) =~= list@.take(i as int) + seq![
                    list@[i as int],
                ]);
                assert(list@.take(i as int) + (seq![list@[i as int]] + remove_email(
                    list@.skip(i as int + 1),
                    email@,
                )) =~= list@.take(i as int + 1) + remove_email(list@.skip(i as int + 1), email@));
            }
            i = i + 1;
        }
    }
    proof {
        assert(list@.skip(i as int) =~= Seq::<Recipient>::empty());
        assert(list@.take(i as int) =~= list@);
    }
    list
}

} // verus!
