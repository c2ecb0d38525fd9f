//! Recipient-side value types: an email address with an optional
//! display name, a recipient with optional substitution data, and the
//! two-shaped recipient set (an explicit list, or the name of a list
//! stored with the provider).

use vstd::prelude::*;

use crate::json::{
    entries_get, lemma_jdata_entries_is, lemma_jdata_seq_is, JsonData, JsonValue,
};

verus! {

/// An email endpoint: the address string plus an optional display name.
/// This layer performs no address validation; the provider does.
#[derive(Debug, PartialEq)]
pub struct EmailAddress {
    pub email: String,
    pub name: Option<String>,
}

impl EmailAddress {
    /// Creates an address carrying both the email string and a display name.
    pub fn new(email: &str, name: &str) -> (r: EmailAddress)
        ensures
            r.email@ == email@,
            r.name matches Some(n) && n@ == name@,
    {
        EmailAddress { email: email.to_owned(), name: Some(name.to_owned()) }
    }

    /// Creates an address carrying both the email string and a display name.
    pub fn with_name(email: &str, name: &str) -> (r: EmailAddress)
        ensures
            r.email@ == email@,
            r.name matches Some(n) && n@ == name@,
    {
        EmailAddress { email: email.to_owned(), name: Some(name.to_owned()) }
    }

    /// The wire shape of an address: an object holding `email`, and
    /// `name` only when a display name is present.
    pub open spec fn wire(self) -> JsonData {
        match self.name {
            Some(n) => JsonData::Obj(
                seq![
                    ("email"@, JsonData::Str(self.email@)),
                    ("name"@, JsonData::Str(n@)),
                ],
            ),
            None => JsonData::Obj(seq![("email"@, JsonData::Str(self.email@))]),
        }
    }

    /// Projects the address onto its wire shape.
    pub fn json(&self) -> (r: JsonValue)
        ensures
            r.jdata() == self.wire(),
    {
        let mut entries: Vec<(String, JsonValue)> = Vec::new();
        entries.push(("email".to_owned(), JsonValue::Str(self.email.clone())));
        match &self.name {
            Some(n) => {
                entries.push(("name".to_owned(), JsonValue::Str(n.clone())));
            },
            None => {},
        }
        proof {
            match &self.name {
                Some(n) => lemma_jdata_entries_is(
                    entries@,
                    seq![
                        ("email"@, JsonData::Str(self.email@)),
                        ("name"@, JsonData::Str(n@)),
                    ],
                ),
                None => lemma_jdata_entries_is(
                    entries@,
                    seq![("email"@, JsonData::Str(self.email@))],
                ),
            }
        }
        JsonValue::Obj(entries)
    }
}

impl Default for EmailAddress {
    /// An empty address string and no display name.
    fn default() -> (r: EmailAddress)
        ensures
            r.email@ == Seq::<char>::empty(),
            r.name is None,
    {
        EmailAddress { email: String::new(), name: None }
    }
}

impl<'a> From<&'a str> for EmailAddress {
    /// An address built from the bare email string: no display name.
    fn from(email: &'a str) -> (r: EmailAddress)
        ensures
            r.email@ == email@,
            r.name is None,
    {
        EmailAddress { email: email.to_owned(), name: None }
    }
}

impl<'a> vstd::std_specs::convert::FromSpecImpl<&'a str> for EmailAddress {
    open spec fn obeys_from_spec() -> bool {
        false
    }

    open spec fn from_spec(v: &'a str) -> EmailAddress {
        arbitrary()
    }
}

impl From<String> for EmailAddress {
    /// An address built from the bare email string: no display name.
    fn from(email: String) -> (r: EmailAddress)
        ensures
            r == (EmailAddress { email, name: None }),
    {
        EmailAddress { email, name: None }
    }
}

impl vstd::std_specs::convert::FromSpecImpl<String> for EmailAddress {
    open spec fn obeys_from_spec() -> bool {
        true
    }

    open spec fn from_spec(v: String) -> EmailAddress {
        EmailAddress { email: v, name: None }
    }
}

/// One recipient of a transmission: an address, and optionally the
/// structured values the provider substitutes into the templated body
/// for this recipient.
#[derive(Debug, PartialEq)]
pub struct Recipient {
    pub address: EmailAddress,
    pub substitution_data: Option<JsonValue>,
}

impl Recipient {
    /// Creates a recipient carrying substitution data.
    pub fn with_substitution(address: EmailAddress, data: JsonValue) -> (r: Recipient)
        ensures
            r.address == address,
            r.substitution_data == Some(data),
    {
        Recipient { address, substitution_data: Some(data) }
    }

    /// The wire shape of a recipient: an object holding `address`, and
    /// `substitution_data` only when present.
    pub open spec fn wire(self) -> JsonData {
        match self.substitution_data {
            Some(d) => JsonData::Obj(
                seq![
                    ("address"@, self.address.wire()),
                    ("substitution_data"@, d.jdata()),
                ],
            ),
            None => JsonData::Obj(seq![("address"@, self.address.wire())]),
        }
    }

    /// Projects the recipient onto its wire shape.
    pub fn json(&self) -> (r: JsonValue)
        ensures
            r.jdata() == self.wire(),
    {
        let mut entries: Vec<(String, JsonValue)> = Vec::new();
        entries.push(("address".to_owned(), self.address.json()));
        match &self.substitution_data {
            Some(d) => {
                entries.push(("substitution_data".to_owned(), d.deep_clone()));
            },
            None => {},
        }
        proof {
            match &self.substitution_data {
                Some(d) => lemma_jdata_entries_is(
                    entries@,
                    seq![
                        ("address"@, self.address.wire()),
                        ("substitution_data"@, d.jdata()),
                    ],
                ),
                None => lemma_jdata_entries_is(
                    entries@,
                    seq![("address"@, self.address.wire())],
                ),
            }
        }
        JsonValue::Obj(entries)
    }
}

impl Default for Recipient {
    /// The default address and no substitution data.
    fn default() -> (r: Recipient)
        ensures
            r.address.email@ == Seq::<char>::empty(),
            r.address.name is None,
            r.substitution_data is None,
    {
        Recipient { address: EmailAddress::default(), substitution_data: None }
    }
}

impl<'a> From<&'a str> for Recipient {
    /// A recipient built from the bare email string: no display name,
    /// no substitution data.
    fn from(email: &'a str) -> (r: Recipient)
        ensures
            r.address.email@ == email@,
            r.address.name is None,
            r.substitution_data is None,
    {
        Recipient {
            address: EmailAddress { email: email.to_owned(), name: None },
            substitution_data: None,
        }
    }
}

impl<'a> vstd::std_specs::convert::FromSpecImpl<&'a str> for Recipient {
    open spec fn obeys_from_spec() -> bool {
        false
    }

    open spec fn from_spec(v: &'a str) -> Recipient {
        arbitrary()
    }
}

impl From<String> for Recipient {
    /// A recipient built from the bare email string: no display name,
    /// no substitution data.
    fn from(email: String) -> (r: Recipient)
        ensures
            r == (Recipient {
                address: EmailAddress { email, name: None },
                substitution_data: None,
            }),
    {
        Recipient { address: EmailAddress { email, name: None }, substitution_data: None }
    }
}

impl vstd::std_specs::convert::FromSpecImpl<String> for Recipient {
    open spec fn obeys_from_spec() -> bool {
        true
    }

    open spec fn from_spec(v: String) -> Recipient {
        Recipient { address: EmailAddress { email: v, name: None }, substitution_data: None }
    }
}

impl From<EmailAddress> for Recipient {
    /// A recipient at the given address, with no substitution data.
    fn from(address: EmailAddress) -> (r: Recipient)
        ensures
            r == (Recipient { address, substitution_data: None }),
    {
        Recipient { address, substitution_data: None }
    }
}

impl vstd::std_specs::convert::FromSpecImpl<EmailAddress> for Recipient {
    open spec fn obeys_from_spec() -> bool {
        true
    }

    open spec fn from_spec(v: EmailAddress) -> Recipient {
        Recipient { address: v, substitution_data: None }
    }
}

/// The recipients of a transmission, in exactly one of two
/// representations: an explicit local list, kept free of duplicate
/// addresses, or the name of a recipient list stored with the provider.
/// The two serialize to structurally different wire shapes — an array
/// of recipient objects, or a `{"list_id": name}` object.
#[derive(Debug, PartialEq)]
pub enum Recipients {
    LocalList(Vec<Recipient>),
    ListName(String),
}

/// The name the recipient set goes under elsewhere in this API's
/// vocabulary.
pub type RecipientSet = Recipients;

impl Recipients {
    /// The wire shape: local recipients in list order, or the stored
    /// list's reference object.
    pub open spec fn wire(self) -> JsonData {
        match self {
            Recipients::LocalList(l) => JsonData::Arr(
                Seq::new(l@.len(), |i: int| l@[i].wire()),
            ),
            Recipients::ListName(n) => JsonData::Obj(
                seq![("list_id"@, JsonData::Str(n@))],
            ),
        }
    }

    /// Projects the recipient set onto its wire shape: the branch on
    /// the active representation that makes the array/object split.
    #[verifier::loop_isolation(false)]
    pub fn json(&self) -> (r: JsonValue)
        ensures
            r.jdata() == self.wire(),
    {
        match self {
            Recipients::LocalList(list) => {
                let mut out: Vec<JsonValue> = Vec::new();
                let mut i: usize = 0;
                while i < list.len()
                    invariant
                        0 <= i <= list@.len(),
                        out@.len() == i,
                        forall|j: int| 0 <= j < i ==> out@[j].jdata() == list@[j].wire(),
                    decreases list@.len() - i,
                {
                    out.push(list[i].json());
                    i = i + 1;
                }
                proof {
                    lemma_jdata_seq_is(out@, Seq::new(list@.len(), |k: int| list@[k].wire()));
                }
                JsonValue::Arr(out)
            },
            Recipients::ListName(name) => {
                let mut entries: Vec<(String, JsonValue)> = Vec::new();
                entries.push(("list_id".to_owned(), JsonValue::Str(name.clone())));
                proof {
                    lemma_jdata_entries_is(entries@, seq![("list_id"@, JsonData::Str(name@))]);
                }
                JsonValue::Obj(entries)
            },
        }
    }
}

impl Default for Recipients {
    /// An empty explicit list.
    fn default() -> (r: Recipients)
        ensures
            r matches Recipients::LocalList(l) && l@ == Seq::<Recipient>::empty(),
    {
        Recipients::LocalList(Vec::new())
    }
}

/// The list with every recipient at the given address removed, the
/// others in their order. Adding a recipient to a local list first
/// removes its address this way, then appends the new entry.
pub open spec fn remove_email(s: Seq<Recipient>, email: Seq<char>) -> Seq<Recipient>
    decreases s.len(),
{
    if s.len() == 0 {
        Seq::empty()
    } else if s.first().address.email@ == email {
        remove_email(s.drop_first(), email)
    } else {
        seq![s.first()] + remove_email(s.drop_first(), email)
    }
}

/// No two entries of the list share an address.
pub open spec fn unique_addresses(s: Seq<Recipient>) -> bool {
    forall|i: int, j: int|
        0 <= i < j < s.len() ==> s[i].address.email@ != s[j].address.email@
}

/// Nothing `remove_email` keeps is at the removed address.
pub proof fn lemma_remove_email_no_match(s: Seq<Recipient>, email: Seq<char>)
    ensures
        forall|i: int|
            0 <= i < remove_email(s, email).len() ==> #[trigger] remove_email(
                s,
                email,
            )[i].address.email@ != email,
    decreases s.len(),
{
    if s.len() > 0 {
        lemma_remove_email_no_match(s.drop_first(), email);
    }
}

/// Everything `remove_email` keeps was in the list.
pub proof fn lemma_remove_email_membership(s: Seq<Recipient>, email: Seq<char>)
    ensures
        forall|i: int|
            0 <= i < remove_email(s, email).len() ==> s.contains(
                #[trigger] remove_email(s, email)[i],
            ),
    decreases s.len(),
{
    if s.len() > 0 {
        lemma_remove_email_membership(s.drop_first(), email);
        assert forall|i: int|
            0 <= i < remove_email(s, email).len() implies s.contains(
            remove_email(s, email)[i],
        ) by {
            let kept = remove_email(s, email);
            let rest = remove_email(s.drop_first(), email);
            if s.first().address.email@ == email {
                let k = choose|k: int| 0 <= k < s.drop_first().len() && s.drop_first()[k] == kept[i];
                assert(s[k + 1] == kept[i]);
            } else {
                if i == 0 {
                    assert(s[0] == kept[0]);
                } else {
                    let k = choose|k: int|
                        0 <= k < s.drop_first().len() && s.drop_first()[k] == rest[i - 1];
                    assert(s[k + 1] == kept[i]);
                }
            }
        }
    }
}

/// `remove_email` keeps a duplicate-free list duplicate-free.
pub proof fn lemma_remove_email_unique(s: Seq<Recipient>, email: Seq<char>)
    requires
        unique_addresses(s),
    ensures
        unique_addresses(remove_email(s, email)),
    decreases s.len(),
{
    if s.len() > 0 {
        assert(unique_addresses(s.drop_first()));
        lemma_remove_email_unique(s.drop_first(), email);
        if s.first().address.email@ != email {
            let kept = remove_email(s, email);
            let rest = remove_email(s.drop_first(), email);
            lemma_remove_email_membership(s.drop_first(), email);
            assert forall|i: int, j: int|
                0 <= i < j < kept.len() implies kept[i].address.email@
                != kept[j].address.email@ by {
                if i == 0 {
                    let k = choose|k: int|
                        0 <= k < s.drop_first().len() && s.drop_first()[k] == rest[j - 1];
                    assert(s[k + 1] == kept[j]);
                    assert(s[0].address.email@ != s[k + 1].address.email@);
                }
            }
        }
    }
}

/// The explicit list's invariant — no two entries at the same address
/// — survives an add: what the dedup step keeps is at other addresses,
/// and the appended entry is the only one at its own.
pub proof fn lemma_add_preserves_unique_addresses(s: Seq<Recipient>, r: Recipient)
    requires
        unique_addresses(s),
    ensures
        unique_addresses(remove_email(s, r.address.email@).push(r)),
{
    let kept = remove_email(s, r.address.email@);
    lemma_remove_email_unique(s, r.address.email@);
    lemma_remove_email_no_match(s, r.address.email@);
    assert forall|i: int, j: int|
        0 <= i < j < kept.push(r).len() implies kept.push(r)[i].address.email@
        != kept.push(r)[j].address.email@ by {
        if j < kept.len() {
            assert(kept[i].address.email@ != kept[j].address.email@);
        } else {
            assert(kept.push(r)[j] == r);
            assert(kept[i].address.email@ != r.address.email@);
        }
    }
}

/// Adding two recipients with distinct addresses to an empty local
/// list keeps both, in insertion order, and the set serializes to the
/// two-element array in that order.
pub proof fn lemma_distinct_addresses_keep_order(r1: Recipient, r2: Recipient)
    requires
        r1.address.email@ != r2.address.email@,
    ensures
        ({
            let l1 = remove_email(Seq::<Recipient>::empty(), r1.address.email@).push(r1);
            let l2 = remove_email(l1, r2.address.email@).push(r2);
            l2 == seq![r1, r2] && Seq::new(l2.len(), |i: int| l2[i].wire()) == seq![
                r1.wire(),
                r2.wire(),
            ]
        }),
{
    let l1 = remove_email(Seq::<Recipient>::empty(), r1.address.email@).push(r1);
    let l2 = remove_email(l1, r2.address.email@).push(r2);
    assert(l1 =~= seq![r1]);
    assert(l1.drop_first() =~= Seq::<Recipient>::empty());
    assert(remove_email(Seq::<Recipient>::empty(), r2.address.email@) =~= Seq::<
        Recipient,
    >::empty());
    assert(remove_email(l1, r2.address.email@) =~= seq![r1]);
    assert(l2 =~= seq![r1, r2]);
    assert(Seq::new(l2.len(), |i: int| l2[i].wire()) =~= seq![r1.wire(), r2.wire()]);
}

/// Adding two recipients with the same address to an empty local list
/// keeps only the later one: the list has one element, and it
/// serializes to a one-element array — never two.
pub proof fn lemma_same_address_replaces(r1: Recipient, r2: Recipient)
    requires
        r1.address.email@ == r2.address.email@,
    ensures
        ({
            let l1 = remove_email(Seq::<Recipient>::empty(), r1.address.email@).push(r1);
            let l2 = remove_email(l1, r2.address.email@).push(r2);
            l2 == seq![r2] && Seq::new(l2.len(), |i: int| l2[i].wire()) == seq![r2.wire()]
        }),
{
    let l1 = remove_email(Seq::<Recipient>::empty(), r1.address.email@).push(r1);
    let l2 = remove_email(l1, r2.address.email@).push(r2);
    assert(l1 =~= seq![r1]);
    assert(l1.drop_first() =~= Seq::<Recipient>::empty());
    assert(remove_email(Seq::<Recipient>::empty(), r2.address.email@) =~= Seq::<
        Recipient,
    >::empty());
    assert(remove_email(l1, r2.address.email@) =~= Seq::<Recipient>::empty());
    assert(l2 =~= seq![r2]);
    assert(Seq::new(l2.len(), |i: int| l2[i].wire()) =~= seq![r2.wire()]);
}

/// Round trip at the address level: reading the wire object back gives
/// the email, and the display name exactly when one was set — an unset
/// name is absent, not null.
pub proof fn lemma_address_wire_round_trip(a: EmailAddress)
    ensures
        a.wire().jget("email"@) == Some(JsonData::Str(a.email@)),
        a.wire().jget("name"@) == (match a.name {
            Some(n) => Some(JsonData::Str(n@)),
            None => None::<JsonData>,
        }),
{
    broadcast use crate::json::lemma_entries_get_push, crate::json::lemma_entries_get_empty;

    reveal_strlit("email");
    reveal_strlit("name");
    assert("email"@.len() == 5);
    assert("name"@.len() == 4);
    assert("email"@ != "name"@);
    match &a.name {
        Some(n) => {
            let e1 = ("email"@, JsonData::Str(a.email@));
            let e2 = ("name"@, JsonData::Str(n@));
            let chain = Seq::<(Seq<char>, JsonData)>::empty().push(e1).push(e2);
            assert(seq![e1, e2] =~= chain);
            assert(a.wire() == JsonData::Obj(seq![e1, e2]));
            assert(entries_get(chain, "email"@) == Some(JsonData::Str(a.email@)));
            assert(entries_get(chain, "name"@) == Some(JsonData::Str(n@)));
        },
        None => {
            let e1 = ("email"@, JsonData::Str(a.email@));
            let chain = Seq::<(Seq<char>, JsonData)>::empty().push(e1);
            assert(seq![e1] =~= chain);
            assert(a.wire() == JsonData::Obj(seq![e1]));
            assert(entries_get(chain, "email"@) == Some(JsonData::Str(a.email@)));
            assert(entries_get(chain, "name"@) is None);
        },
    }
}

/// Round trip at the recipient level: reading the wire object back
/// gives the address object, and the substitution data exactly when
/// set — unset substitution data is absent.
pub proof fn lemma_recipient_wire_round_trip(r: Recipient)
    ensures
        r.wire().jget("address"@) == Some(r.address.wire()),
        r.wire().jget("substitution_data"@) == (match r.substitution_data {
            Some(d) => Some(d.jdata()),
            None => None::<JsonData>,
        }),
{
    broadcast use crate::json::lemma_entries_get_push, crate::json::lemma_entries_get_empty;

    reveal_strlit("address");
    reveal_strlit("substitution_data");
    assert("address"@.len() == 7);
    assert("substitution_data"@.len() == 17);
    match &r.substitution_data {
        Some(d) => {
            let e1 = ("address"@, r.address.wire());
            let e2 = ("substitution_data"@, d.jdata());
            let chain = Seq::<(Seq<char>, JsonData)>::empty().push(e1).push(e2);
            assert(seq![e1, e2] =~= chain);
            assert(r.wire() == JsonData::Obj(seq![e1, e2]));
            assert(entries_get(chain, "address"@) == Some(r.address.wire()));
            assert(entries_get(chain, "substitution_data"@) == Some(d.jdata()));
        },
        None => {
            let e1 = ("address"@, r.address.wire());
            let chain = Seq::<(Seq<char>, JsonData)>::empty().push(e1);
            assert(seq![e1] =~= chain);
            assert(r.wire() == JsonData::Obj(seq![e1]));
            assert(entries_get(chain, "address"@) == Some(r.address.wire()));
            assert(entries_get(chain, "substitution_data"@) is None);
        },
    }
}

/// After a recipient is added over a stored-list reference, the set is
/// the one-element local list holding only that recipient, and it
/// serializes to a JSON array — not a `list_id` object.
pub proof fn lemma_add_over_stored_list(rs: Recipients, recipient: Recipient)
    requires
        rs matches Recipients::LocalList(l) && l@ == seq![recipient],
    ensures
        rs.wire() == JsonData::Arr(seq![recipient.wire()]),
        rs.wire() is Arr,
{
    match rs {
        Recipients::LocalList(l) => {
            assert(Seq::new(l@.len(), |i: int| l@[i].wire()) =~= seq![recipient.wire()]);
        },
        Recipients::ListName(_) => {},
    }
}

/// After a stored list is set, the set serializes to the `list_id`
/// object naming that list — whatever recipients were held before are
/// gone from the wire shape.
pub proof fn lemma_stored_list_overrides(rs: Recipients, list_name: Seq<char>)
    requires
        rs matches Recipients::ListName(n) && n@ == list_name,
    ensures
        rs.wire() == JsonData::Obj(seq![("list_id"@, JsonData::Str(list_name))]),
        rs.wire() is Obj,
{
}

} // verus!
