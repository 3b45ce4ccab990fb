//! A session: an opaque id, the cookie value that the id was derived from, and
//! a payload of attributes, with its binary encoding.

use vstd::prelude::*;
use vstd::string::StringExecFns;
use crate::error::StoreError;

verus! {

/// The payload as it is stored: keys and values in the order of insertion.
pub type Entries = Seq<(Seq<char>, Seq<char>)>;

/// The session id that belongs to a cookie value: the value is decoded as
/// base64, hashed, and the hash encoded as base64 again. `None` where the
/// value is no base64 text.
pub uninterp spec fn session_id_of(cookie_value: Seq<char>) -> Option<Seq<char>>;

/// The MessagePack encoding of a session's id and entries, as an array of the
/// id and of the array of the entries, each entry an array of two strings:
/// the bytes that the encoder gives wherever it gives any.
pub uninterp spec fn payload_bytes(id: Seq<char>, entries: Entries) -> Seq<u8>;

/// What parsing bytes as such an encoding gives; `None` where they are none.
pub uninterp spec fn payload_parse(bytes: Seq<u8>) -> Option<(Seq<char>, Entries)>;

/// `async_session::Session::id_from_cookie_value`, its error dropped. The
/// result is only given its name.
#[verifier::external_body]
fn derive_session_id(cookie_value: &str) -> (r: Option<String>)
    ensures
        match r {
            Some(id) => session_id_of(cookie_value@) == Some(id@),
            None => session_id_of(cookie_value@) is None,
        },
{
    async_session::Session::id_from_cookie_value(cookie_value).ok()
}

/// `async_session::Session::new`: sixty-four fresh random bytes as a cookie
/// value, and the id derived from it. The contract claims what the source
/// shows: the id is the one that belongs to the cookie value.
#[verifier::external_body]
fn fresh_cookie_and_id() -> (r: (String, String))
    ensures
        session_id_of(r.0@) == Some(r.1@),
{
    let session = async_session::Session::new();
    let id = session.id().to_string();
    (session.into_cookie_value().unwrap(), id)
}

/// The failure that the encoder reports.
#[verifier::external_type_specification]
#[verifier::external_body]
pub struct ExEncodeError(rmp_serde::encode::Error);

/// The failure that the decoder reports.
#[verifier::external_type_specification]
#[verifier::external_body]
pub struct ExDecodeError(rmp_serde::decode::Error);

/// Whether a text's UTF-8 form is short enough for the length field of the
/// encoding.
pub open spec fn fits_wire(text: Seq<char>) -> bool {
    vstd::utf8::encode_utf8(text).len() <= u32::MAX
}

/// Whether every length in a session fits the encoding.
pub open spec fn encodable(id: Seq<char>, entries: Entries) -> bool {
    &&& fits_wire(id)
    &&& entries.len() <= u32::MAX
    &&& forall|i: int|
        0 <= i < entries.len() ==> fits_wire((#[trigger] entries[i]).0) && fits_wire(entries[i].1)
}

/// `rmp_serde::to_vec` on the id and the entries. Lengths beyond 32 bits are
/// left out, since the encoder would cut them. The contract names the bytes
/// and claims that `rmp_serde::from_slice` reads the same values back from
/// them, as the crate documents for its pair of functions. Nothing is claimed
/// of a failure: the encoder fails where the machine has no memory left for
/// the bytes, which no argument decides.
#[verifier::external_body]
fn encode_payload(id: &String, data: &Vec<(String, String)>) -> (r: Result<
    Vec<u8>,
    rmp_serde::encode::Error,
>)
    requires
        encodable(id@, entries_of(data@)),
    ensures
        r matches Ok(bytes) ==> payload_bytes(id@, entries_of(data@)) == bytes@ && payload_parse(
            bytes@,
        ) == Some((id@, entries_of(data@))),
{
    rmp_serde::to_vec(&(id, data))
}

/// `rmp_serde::from_slice` for an id and entries. The result is only given
/// its name.
#[verifier::external_body]
fn decode_payload(bytes: &[u8]) -> (r: Result<
    (String, Vec<(String, String)>),
    rmp_serde::decode::Error,
>)
    ensures
        match r {
            Ok(parsed) => payload_parse(bytes@) == Some((parsed.0@, entries_of(parsed.1@))),
            Err(_) => payload_parse(bytes@) is None,
        },
{
    rmp_serde::from_slice(bytes)
}

/// The entries that a vector of pairs of strings stands for.
pub open spec fn entries_of(data: Seq<(String, String)>) -> Entries {
    Seq::new(data.len(), |i: int| (data[i].0@, data[i].1@))
}

/// No key occurs twice.
pub open spec fn distinct_keys(entries: Entries) -> bool {
    forall|i: int, j: int|
        0 <= i < j < entries.len() ==> (#[trigger] entries[i]).0 != (#[trigger] entries[j]).0
}

/// Whether some entry has this key.
pub open spec fn has_key(entries: Entries, key: Seq<char>) -> bool {
    exists|i: int| 0 <= i < entries.len() && (#[trigger] entries[i]).0 == key
}

/// The position of an entry with this key, where there is one.
pub open spec fn index_of(entries: Entries, key: Seq<char>) -> int {
    choose|i: int| 0 <= i < entries.len() && (#[trigger] entries[i]).0 == key
}

/// The attributes that the entries hold, as a map from key to value.
pub open spec fn payload_of(entries: Entries) -> Map<Seq<char>, Seq<char>> {
    Map::new(|key: Seq<char>| has_key(entries, key), |key: Seq<char>| entries[index_of(entries, key)].1)
}

/// The entries after `value` is stored under `key`: in place of the entry
/// with that key where there is one, else behind the last entry.
pub open spec fn with_entry(entries: Entries, key: Seq<char>, value: Seq<char>) -> Entries {
    if has_key(entries, key) {
        entries.update(index_of(entries, key), (key, value))
    } else {
        entries.push((key, value))
    }
}

/// Storing under a key keeps the keys distinct and is an insert into the map
/// that the entries hold.
pub proof fn lemma_with_entry(entries: Entries, key: Seq<char>, value: Seq<char>)
    requires
        distinct_keys(entries),
    ensures
        distinct_keys(with_entry(entries, key, value)),
        payload_of(with_entry(entries, key, value)) == payload_of(entries).insert(key, value),
{
    if has_key(entries, key) {
        let i = index_of(entries, key);
        lemma_update_entry(entries, i, value);
    } else {
        assert forall|j: int| 0 <= j < entries.len() implies (#[trigger] entries[j]).0 != key by {
            if entries[j].0 == key {
                assert(has_key(entries, key));
            }
        }
        lemma_push_entry(entries, key, value);
    }
}

/// With distinct keys, each entry is what the map holds for its key.
pub proof fn lemma_payload_at(entries: Entries, i: int)
    requires
        distinct_keys(entries),
        0 <= i < entries.len(),
    ensures
        payload_of(entries).contains_key(entries[i].0),
        payload_of(entries)[entries[i].0] == entries[i].1,
{
    let key = entries[i].0;
    let k = index_of(entries, key);
    assert(has_key(entries, key));
    if k < i {
        assert(entries[k].0 != entries[i].0);
    } else if i < k {
        assert(entries[i].0 != entries[k].0);
    }
}

/// What a session is, apart from how it is held in memory.
pub struct SessionView {
    pub id: Seq<char>,
    pub entries: Entries,
    pub cookie_value: Option<Seq<char>>,
}

impl SessionView {
    /// The attributes, as a map.
    pub open spec fn payload(self) -> Map<Seq<char>, Seq<char>> {
        payload_of(self.entries)
    }

    /// A session is valid when no key occurs twice and its id is the one that
    /// belongs to its cookie value, where it still has that value.
    pub open spec fn wf(self) -> bool {
        &&& distinct_keys(self.entries)
        &&& self.cookie_value matches Some(cookie) ==> session_id_of(cookie) == Some(self.id)
    }

    /// The session as it comes back from the store: without its cookie value.
    pub open spec fn stored(self) -> SessionView {
        SessionView { id: self.id, entries: self.entries, cookie_value: None }
    }
}

/// The session that bytes decode to: `None` where they are no encoding, or
/// one in which a key occurs twice.
pub open spec fn decoded_session(bytes: Seq<u8>) -> Option<SessionView> {
    match payload_parse(bytes) {
        Some((id, entries)) => if distinct_keys(entries) {
            Some(SessionView { id, entries, cookie_value: None })
        } else {
            None
        },
        None => None,
    }
}

/// The identity of an authenticated user, as a session carries it.
#[derive(Debug)]
pub struct Identity {
    pub name: String,
}

/// The key under which a session carries the authenticated identity.
pub open spec fn identity_key() -> Seq<char> {
    "user_id"@
}

/// A session. Its fields are its own: it is made by `new`, `from_parts` and
/// `decode`, which establish that it is valid, and changed by methods that
/// keep it so. It holds an id and attributes and carries no expiry: a session
/// lasts until it is destroyed or the store is cleared.
#[derive(Debug)]
pub struct Session {
    id: String,
    data: Vec<(String, String)>,
    cookie_value: Option<String>,
}

impl View for Session {
    type V = SessionView;

    closed spec fn view(&self) -> SessionView {
        SessionView {
            id: self.id@,
            entries: entries_of(self.data@),
            cookie_value: match self.cookie_value {
                Some(cookie) => Some(cookie@),
                None => None,
            },
        }
    }
}

/// The position of the entry with this key, if there is one.
fn position(data: &Vec<(String, String)>, key: &String) -> (r: Option<usize>)
    ensures
        match r {
            Some(i) => i < data@.len() && data@[i as int].0@ == key@,
            None => forall|j: int| 0 <= j < data@.len() ==> (#[trigger] data@[j]).0@ != key@,
        },
{
    let mut i: usize = 0;
    while i < data.len()
        invariant
            i <= data@.len(),
            forall|j: int| 0 <= j < i ==> (#[trigger] data@[j]).0@ != key@,
        decreases data@.len() - i,
    {
        if data[i].0 == *key {
            return Some(i);
        }
        i = i + 1;
    }
    None
}

impl Session {
    /// Holds of every session: no value of this type is ever without it.
    #[verifier::type_invariant]
    pub open spec fn wf(&self) -> bool {
        self@.wf()
    }

    /// Moves the entries out and leaves the session without any.
    fn take_data(&mut self) -> (r: Vec<(String, String)>)
        ensures
            r == old(self).data,
            final(self).id == old(self).id,
            final(self).cookie_value == old(self).cookie_value,
            final(self).data@.len() == 0,
    {
        proof {
            use_type_invariant(&*self);
        }
        let mut taken = Session { id: String::new(), data: Vec::new(), cookie_value: None };
        assert(taken@.entries =~= Seq::empty());
        core::mem::swap(self, &mut taken);
        let Session { id, data, cookie_value } = taken;
        let empty: Vec<(String, String)> = Vec::new();
        assert(entries_of(empty@) =~= Seq::empty());
        *self = Session { id, data: empty, cookie_value };
        data
    }

    /// Gives a session without entries the entries `data`.
    fn put_data(&mut self, data: Vec<(String, String)>)
        requires
            old(self).data@.len() == 0,
            distinct_keys(entries_of(data@)),
        ensures
            final(self).data == data,
            final(self).id == old(self).id,
            final(self).cookie_value == old(self).cookie_value,
    {
        proof {
            use_type_invariant(&*self);
        }
        let mut taken = Session { id: String::new(), data: Vec::new(), cookie_value: None };
        assert(taken@.entries =~= Seq::empty());
        core::mem::swap(self, &mut taken);
        let Session { id, data: _, cookie_value } = taken;
        *self = Session { id, data, cookie_value };
    }

    /// Creates a session with a fresh random cookie value, the id that belongs
    /// to it, and no attributes.
    pub fn new() -> (r: Session)
        ensures
            r.wf(),
            r@.entries.len() == 0,
            r@.cookie_value is Some,
    {
        let (cookie, id) = fresh_cookie_and_id();
        let r = Session { id, data: Vec::new(), cookie_value: Some(cookie) };
        assert(r@.entries =~= Seq::empty());
        r
    }

    /// Puts a session together from its parts. There is none where a key
    /// occurs twice, or where the id is not the one that belongs to the
    /// cookie value.
    pub fn from_parts(id: String, data: Vec<(String, String)>, cookie_value: Option<String>) -> (r:
        Option<Session>)
        ensures
            match r {
                Some(session) => session@.id == id@ && session@.entries == entries_of(data@)
                    && (match cookie_value {
                    Some(cookie) => session@.cookie_value == Some(cookie@),
                    None => session@.cookie_value is None,
                }) && session.wf(),
                None => !distinct_keys(entries_of(data@)) || (cookie_value matches Some(cookie)
                    && session_id_of(cookie@) != Some(id@)),
            },
    {
        if !keys_distinct(&data) {
            return None;
        }
        match &cookie_value {
            Some(cookie) => match derive_session_id(cookie.as_str()) {
                Some(derived) => {
                    if derived != id {
                        return None;
                    }
                },
                None => {
                    return None;
                },
            },
            None => {},
        }
        Some(Session { id, data, cookie_value })
    }

    /// A copy of the attributes, in the order in which they are stored.
    pub fn entries(&self) -> (r: Vec<(String, String)>)
        ensures
            entries_of(r@) == self@.entries,
    {
        let mut out: Vec<(String, String)> = Vec::new();
        let mut i: usize = 0;
        while i < self.data.len()
            invariant
                i <= self.data@.len(),
                out@.len() == i,
                forall|j: int|
                    0 <= j < i ==> (#[trigger] out@[j]).0@ == self.data@[j].0@ && out@[j].1@
                        == self.data@[j].1@,
            decreases self.data@.len() - i,
        {
            out.push((self.data[i].0.clone(), self.data[i].1.clone()));
            i = i + 1;
        }
        assert(entries_of(out@) =~= entries_of(self.data@));
        out
    }

    /// The id that belongs to a cookie value, if the value yields one.
    pub fn id_from_cookie_value(cookie_value: &str) -> (r: Option<String>)
        ensures
            match r {
                Some(id) => session_id_of(cookie_value@) == Some(id@),
                None => session_id_of(cookie_value@) is None,
            },
    {
        derive_session_id(cookie_value)
    }

    pub fn id(&self) -> (r: &str)
        ensures
            r@ == self@.id,
    {
        self.id.as_str()
    }

    /// The number of attributes.
    pub fn len(&self) -> (r: usize)
        ensures
            r == self@.entries.len(),
    {
        self.data.len()
    }

    /// The value stored under `key`, if there is one.
    pub fn get_raw(&self, key: &str) -> (r: Option<String>)
        ensures
            match r {
                Some(value) => self@.payload().contains_key(key@) && self@.payload()[key@]
                    == value@,
                None => !self@.payload().contains_key(key@),
            },
    {
        proof {
            use_type_invariant(self);
        }
        let wanted = String::from_str(key);
        match position(&self.data, &wanted) {
            Some(i) => {
                proof {
                    assert(self@.entries[i as int].0 == key@);
                    lemma_payload_at(self@.entries, i as int);
                }
                Some(self.data[i].1.clone())
            },
            None => {
                assert forall|j: int| 0 <= j < self@.entries.len() implies (
                #[trigger] self@.entries[j]).0 != key@ by {
                    assert(self.data@[j].0@ != key@);
                }
                None
            },
        }
    }

    /// Stores `value` under `key`, in place of what was stored there.
    pub fn insert_raw(&mut self, key: &str, value: String)
        ensures
            old(self).wf(),
            final(self).wf(),
            final(self)@.id == old(self)@.id,
            final(self)@.cookie_value == old(self)@.cookie_value,
            final(self)@.entries == with_entry(old(self)@.entries, key@, value@),
            final(self)@.payload() == old(self)@.payload().insert(key@, value@),
            final(self)@.entries.len() == if old(self)@.payload().contains_key(key@) {
                old(self)@.entries.len()
            } else {
                old(self)@.entries.len() + 1
            },
    {
        proof {
            use_type_invariant(&*self);
        }
        let wanted = String::from_str(key);
        let ghost before = self@.entries;
        let found = position(&self.data, &wanted);
        match found {
            Some(i) => {
                proof {
                    assert(before[i as int].0 == key@);
                    lemma_update_entry(before, i as int, value@);
                    assert(has_key(before, key@));
                    let k = index_of(before, key@);
                    if k < i {
                        assert(before[k].0 != before[i as int].0);
                    } else if i < k {
                        assert(before[i as int].0 != before[k].0);
                    }
                    assert(entries_of(self.data@.update(i as int, (wanted, value)))
                        =~= before.update(i as int, (key@, value@)));
                }
                let mut data = self.take_data();
                data.set(i, (wanted, value));
                self.put_data(data);
            },
            None => {
                proof {
                    assert forall|j: int| 0 <= j < before.len() implies (#[trigger] before[j]).0
                        != key@ by {
                        assert(self.data@[j].0@ != key@);
                    }
                    lemma_push_entry(before, key@, value@);
                    assert(!has_key(before, key@));
                    assert(entries_of(self.data@.push((wanted, value))) =~= before.push(
                        (key@, value@),
                    ));
                }
                let mut data = self.take_data();
                data.push((wanted, value));
                self.put_data(data);
            },
        }
    }

    /// Removes what is stored under `key`, if anything is.
    pub fn remove(&mut self, key: &str)
        ensures
            old(self).wf(),
            final(self).wf(),
            final(self)@.id == old(self)@.id,
            final(self)@.cookie_value == old(self)@.cookie_value,
            final(self)@.payload() == old(self)@.payload().remove(key@),
    {
        proof {
            use_type_invariant(&*self);
        }
        let wanted = String::from_str(key);
        let ghost before = self@.entries;
        let found = position(&self.data, &wanted);
        match found {
            Some(i) => {
                proof {
                    assert(before[i as int].0 == key@);
                    lemma_remove_entry(before, i as int);
                    assert(entries_of(self.data@.remove(i as int)) =~= before.remove(i as int));
                }
                let mut data = self.take_data();
                data.remove(i);
                self.put_data(data);
            },
            None => {
                assert forall|j: int| 0 <= j < before.len() implies (#[trigger] before[j]).0
                    != key@ by {
                    assert(self.data@[j].0@ != key@);
                }
                assert(!has_key(before, key@));
                assert(payload_of(before).remove(key@) =~= payload_of(before));
            },
        }
    }

    /// The identity of the authenticated user, where the session carries one.
    pub fn get_authenticated_identity(&self) -> (r: Option<Identity>)
        ensures
            match r {
                Some(identity) => self@.payload().contains_key(identity_key())
                    && self@.payload()[identity_key()] == identity.name@,
                None => !self@.payload().contains_key(identity_key()),
            },
    {
        match self.get_raw("user_id") {
            Some(name) => Some(Identity { name }),
            None => None,
        }
    }

    /// Marks the session as that of an authenticated user.
    pub fn set_authenticated_identity(&mut self, identity: &Identity)
        ensures
            old(self).wf(),
            final(self).wf(),
            final(self)@.id == old(self)@.id,
            final(self)@.cookie_value == old(self)@.cookie_value,
            final(self)@.entries == with_entry(
                old(self)@.entries,
                identity_key(),
                identity.name@,
            ),
            final(self)@.payload() == old(self)@.payload().insert(
                identity_key(),
                identity.name@,
            ),
    {
        self.insert_raw("user_id", identity.name.clone());
    }

    /// Takes the cookie value out of the session. A session that came from
    /// the store has none.
    pub fn into_cookie_value(self) -> (r: Option<String>)
        ensures
            match r {
                Some(cookie) => self@.cookie_value == Some(cookie@),
                None => self@.cookie_value is None,
            },
    {
        self.cookie_value
    }

    /// A copy of the cookie value, which stays in the session.
    pub fn cookie_value(&self) -> (r: Option<String>)
        ensures
            match r {
                Some(cookie) => self@.cookie_value == Some(cookie@),
                None => self@.cookie_value is None,
            },
    {
        match &self.cookie_value {
            Some(cookie) => Some(cookie.clone()),
            None => None,
        }
    }
}

fn text_fits(text: &String) -> (r: bool)
    ensures
        r == fits_wire(text@),
{
    text.as_str().as_bytes().len() <= 0xFFFF_FFFF
}

fn data_fits(data: &Vec<(String, String)>) -> (r: bool)
    ensures
        r == (data@.len() <= u32::MAX && forall|i: int|
            0 <= i < data@.len() ==> fits_wire((#[trigger] entries_of(data@)[i]).0) && fits_wire(
                entries_of(data@)[i].1,
            )),
{
    if data.len() > 0xFFFF_FFFF {
        return false;
    }
    let mut i: usize = 0;
    while i < data.len()
        invariant
            i <= data@.len(),
            forall|j: int|
                0 <= j < i ==> fits_wire((#[trigger] entries_of(data@)[j]).0) && fits_wire(
                    entries_of(data@)[j].1,
                ),
        decreases data@.len() - i,
    {
        if !text_fits(&data[i].0) || !text_fits(&data[i].1) {
            assert(entries_of(data@)[i as int] == (data@[i as int].0@, data@[i as int].1@));
            return false;
        }
        assert(entries_of(data@)[i as int] == (data@[i as int].0@, data@[i as int].1@));
        i = i + 1;
    }
    true
}

fn keys_distinct(data: &Vec<(String, String)>) -> (r: bool)
    ensures
        r == distinct_keys(entries_of(data@)),
{
    let ghost entries = entries_of(data@);
    let mut j: usize = 0;
    while j < data.len()
        invariant
            j <= data@.len(),
            entries == entries_of(data@),
            forall|a: int, b: int|
                0 <= a < b < j ==> (#[trigger] entries[a]).0 != (#[trigger] entries[b]).0,
        decreases data@.len() - j,
    {
        let mut i: usize = 0;
        while i < j
            invariant
                i <= j < data@.len(),
                entries == entries_of(data@),
                forall|a: int| 0 <= a < i ==> (#[trigger] entries[a]).0 != entries[j as int].0,
            decreases j - i,
        {
            if data[i].0 == data[j].0 {
                assert(entries[i as int].0 == entries[j as int].0);
                return false;
            }
            assert(entries[i as int].0 != entries[j as int].0);
            i = i + 1;
        }
        j = j + 1;
    }
    true
}

impl Session {
    /// The compact binary form of the session's id and attributes. The same
    /// session always has the same form, and the form decodes to the session
    /// as it was, without its cookie value. A session with a length that does
    /// not fit the form is refused; one that fits is encoded unless the
    /// encoder fails.
    pub fn encode(&self) -> (r: Result<Vec<u8>, StoreError>)
        ensures
            self.wf(),
            !encodable(self@.id, self@.entries) ==> r is Err,
            match r {
                Ok(bytes) => encodable(self@.id, self@.entries) && bytes@ == payload_bytes(
                    self@.id,
                    self@.entries,
                ) && decoded_session(bytes@) == Some(self@.stored()),
                Err(error) => error is Unencodable,
            },
    {
        proof {
            use_type_invariant(self);
        }
        if !text_fits(&self.id) || !data_fits(&self.data) {
            return Err(StoreError::Unencodable);
        }
        match encode_payload(&self.id, &self.data) {
            Ok(bytes) => Ok(bytes),
            Err(_) => Err(StoreError::Unencodable),
        }
    }

    /// Reads a session back from its binary form. Bytes that are no such
    /// form, or that hold a key twice, are corrupt.
    pub fn decode(bytes: &[u8]) -> (r: Result<Session, StoreError>)
        ensures
            match r {
                Ok(session) => decoded_session(bytes@) == Some(session@) && session.wf(),
                Err(error) => error is Corrupt && decoded_session(bytes@) is None,
            },
    {
        match decode_payload(bytes) {
            Ok(parsed) => {
                let (id, data) = parsed;
                if keys_distinct(&data) {
                    Ok(Session { id, data, cookie_value: None })
                } else {
                    Err(StoreError::Corrupt)
                }
            },
            Err(_) => Err(StoreError::Corrupt),
        }
    }
}

proof fn lemma_update_entry(before: Entries, i: int, value: Seq<char>)
    requires
        distinct_keys(before),
        0 <= i < before.len(),
    ensures
        distinct_keys(before.update(i, (before[i].0, value))),
        payload_of(before.update(i, (before[i].0, value))) == payload_of(before).insert(
            before[i].0,
            value,
        ),
{
    let key = before[i].0;
    let after = before.update(i, (key, value));
    assert forall|a: int, b: int| 0 <= a < b < after.len() implies (#[trigger] after[a]).0 != (
    #[trigger] after[b]).0 by {
        assert(before[a].0 != before[b].0);
    }
    assert forall|q: Seq<char>| has_key(after, q) == (has_key(before, q) || q == key) by {
        if has_key(after, q) {
            let k = index_of(after, q);
            assert(before[k].0 == q);
        }
        if has_key(before, q) {
            let k = index_of(before, q);
            assert(after[k].0 == q);
        }
        if q == key {
            assert(after[i].0 == q);
        }
    }
    assert forall|q: Seq<char>| has_key(after, q) implies #[trigger] payload_of(after)[q]
        == payload_of(before).insert(key, value)[q] by {
        let k = index_of(after, q);
        lemma_payload_at(after, k);
        if q != key {
            assert(k != i);
            assert(before[k] == after[k]);
            lemma_payload_at(before, k);
        } else {
            if k < i {
                assert(after[k].0 != after[i].0);
            } else if i < k {
                assert(after[i].0 != after[k].0);
            }
        }
    }
    assert(payload_of(after) =~= payload_of(before).insert(key, value));
}

proof fn lemma_push_entry(before: Entries, key: Seq<char>, value: Seq<char>)
    requires
        distinct_keys(before),
        forall|j: int| 0 <= j < before.len() ==> (#[trigger] before[j]).0 != key,
    ensures
        distinct_keys(before.push((key, value))),
        !has_key(before, key),
        payload_of(before.push((key, value))) == payload_of(before).insert(key, value),
{
    let after = before.push((key, value));
    assert forall|a: int, b: int| 0 <= a < b < after.len() implies (#[trigger] after[a]).0 != (
    #[trigger] after[b]).0 by {
        if b < before.len() {
            assert(before[a].0 != before[b].0);
        } else {
            assert(before[a].0 != key);
        }
    }
    assert forall|q: Seq<char>| has_key(after, q) == (has_key(before, q) || q == key) by {
        if has_key(after, q) {
            let k = index_of(after, q);
            if k < before.len() {
                assert(before[k].0 == q);
            }
        }
        if has_key(before, q) {
            let k = index_of(before, q);
            assert(after[k].0 == q);
        }
        if q == key {
            assert(after[before.len() as int].0 == q);
        }
    }
    assert forall|q: Seq<char>| has_key(after, q) implies #[trigger] payload_of(after)[q]
        == payload_of(before).insert(key, value)[q] by {
        let k = index_of(after, q);
        lemma_payload_at(after, k);
        if q != key {
            assert(k < before.len());
            assert(before[k] == after[k]);
            lemma_payload_at(before, k);
        } else {
            if k < before.len() {
                assert(before[k].0 != key);
            }
        }
    }
    assert(payload_of(after) =~= payload_of(before).insert(key, value));
}

proof fn lemma_remove_entry(before: Entries, i: int)
    requires
        distinct_keys(before),
        0 <= i < before.len(),
    ensures
        distinct_keys(before.remove(i)),
        payload_of(before.remove(i)) == payload_of(before).remove(before[i].0),
{
    let key = before[i].0;
    let after = before.remove(i);
    assert forall|a: int, b: int| 0 <= a < b < after.len() implies (#[trigger] after[a]).0 != (
    #[trigger] after[b]).0 by {
        let a0 = if a < i { a } else { a + 1 };
        let b0 = if b < i { b } else { b + 1 };
        assert(before[a0].0 != before[b0].0);
    }
    assert forall|q: Seq<char>| has_key(after, q) == (has_key(before, q) && q != key) by {
        if has_key(after, q) {
            let k = index_of(after, q);
            let k0 = if k < i { k } else { k + 1 };
            assert(before[k0].0 == q);
            if k0 < i {
                assert(before[k0].0 != before[i].0);
            } else {
                assert(before[i].0 != before[k0].0);
            }
        }
        if has_key(before, q) && q != key {
            let k = index_of(before, q);
            let k1 = if k < i { k } else { k - 1 };
            assert(after[k1].0 == q);
        }
    }
    assert forall|q: Seq<char>| has_key(after, q) implies #[trigger] payload_of(after)[q]
        == payload_of(before).remove(key)[q] by {
        let k = index_of(after, q);
        lemma_payload_at(after, k);
        let k0 = if k < i { k } else { k + 1 };
        assert(before[k0] == after[k]);
        lemma_payload_at(before, k0);
    }
    assert(payload_of(after) =~= payload_of(before).remove(key));
}

} // verus!
