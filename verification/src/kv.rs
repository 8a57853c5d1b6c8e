//! The command executor of a mini-redis style server: frames in, frames out,
//! against an in-memory key/value store.
//!
//! Parsing a command out of a frame is mini-redis's own work
//! (`mini_redis::Command::from_frame`); this module calls it and decides what
//! a parsed `GET` or `SET` does to the store and how it is answered.

use vstd::prelude::*;
use vstd::utf8::{decode_utf8, encode_utf8, valid_utf8};

verus! {

/// A frame of the Redis protocol, holding plain values.
#[derive(Debug, PartialEq, Eq)]
pub enum RespFrame {
    Simple(String),
    Error(String),
    Integer(u64),
    Bulk(Vec<u8>),
    Null,
    Array(Vec<RespFrame>),
}

/// A command as mini-redis parses it, reduced to what the executor reads.
///
/// `Unsupported` stands for every command other than `GET` and `SET`
/// (`PUBLISH`, `SUBSCRIBE`, `UNSUBSCRIBE`, unknown names); it carries the
/// command's debug rendering.
#[derive(Debug, PartialEq, Eq)]
pub enum Command {
    Get { key: String },
    SetValue { key: String, value: Vec<u8> },
    Unsupported { description: String },
}

/// Why a frame was not answered.
#[derive(Debug, PartialEq, Eq)]
pub enum Rejection {
    /// mini-redis could not parse a command out of the frame; the message is
    /// mini-redis's own.
    Malformed(String),
    /// The command parsed but this server does not implement it.
    Unimplemented(String),
}

#[verifier::external_type_specification]
#[verifier::external_body]
pub struct ExRedisFrame(mini_redis::Frame);

/// What `mini_redis::Command::from_frame` makes of a frame: the parsed
/// command, or the text of its error.
pub uninterp spec fn parsed_command(frame: RespFrame) -> Result<Command, String>;

/// Rebuilds a frame as a `mini_redis::Frame`, variant for variant (the bulk
/// payload becomes `bytes::Bytes`).  Nothing is stated of the result: it is
/// only handed to `mini_redis::Command::from_frame`.
#[verifier::external_body]
fn into_redis_frame(frame: RespFrame) -> mini_redis::Frame {
    match frame {
        RespFrame::Simple(s) => mini_redis::Frame::Simple(s),
        RespFrame::Error(s) => mini_redis::Frame::Error(s),
        RespFrame::Integer(n) => mini_redis::Frame::Integer(n),
        RespFrame::Bulk(b) => mini_redis::Frame::Bulk(bytes::Bytes::from(b)),
        RespFrame::Null => mini_redis::Frame::Null,
        RespFrame::Array(items) => mini_redis::Frame::Array(items.into_iter().map(into_redis_frame).collect()),
    }
}

/// `b` with its ASCII capitals turned to small letters.
pub open spec fn ascii_lowercase(b: u8) -> u8 {
    if 65 <= b <= 90 {
        (b + 32) as u8
    } else {
        b
    }
}

/// `name` spells the command `lower` (given in small letters) in any mix of
/// ASCII capitals and small letters.
pub open spec fn spells_command(name: Seq<u8>, lower: Seq<u8>) -> bool {
    &&& name.len() == lower.len()
    &&& forall|i: int| 0 <= i < name.len() ==> ascii_lowercase(#[trigger] name[i]) == lower[i]
}

/// The bytes of `get`.
pub open spec fn get_name() -> Seq<u8> {
    seq![103u8, 101u8, 116u8]
}

/// The bytes of `set`.
pub open spec fn set_name() -> Seq<u8> {
    seq![115u8, 101u8, 116u8]
}

/// `frame` is the request `GET key`: an array of two bulk strings, the first
/// spelling `get`, the second holding the key's bytes.
pub open spec fn is_get_request(frame: RespFrame, key: Seq<u8>) -> bool {
    &&& frame matches RespFrame::Array(items)
    &&& items@.len() == 2
    &&& items@[0] matches RespFrame::Bulk(name)
    &&& spells_command(name@, get_name())
    &&& items@[1] matches RespFrame::Bulk(k)
    &&& k@ == key
}

/// `frame` is the request `SET key value`: an array of three bulk strings, the
/// first spelling `set`, then the key's bytes and the value's bytes.
pub open spec fn is_set_request(frame: RespFrame, key: Seq<u8>, value: Seq<u8>) -> bool {
    &&& frame matches RespFrame::Array(items)
    &&& items@.len() == 3
    &&& items@[0] matches RespFrame::Bulk(name)
    &&& spells_command(name@, set_name())
    &&& items@[1] matches RespFrame::Bulk(k)
    &&& k@ == key
    &&& items@[2] matches RespFrame::Bulk(v)
    &&& v@ == value
}

/// `r` is the command `GET key`.
pub open spec fn parses_to_get(r: Result<Command, String>, key: Seq<char>) -> bool {
    r matches Ok(Command::Get { key: k }) && k@ == key
}

/// `r` is the command `SET key value`.
pub open spec fn parses_to_set(r: Result<Command, String>, key: Seq<char>, value: Seq<u8>) -> bool {
    r matches Ok(Command::SetValue { key: k, value: v }) && k@ == key && v@ == value
}

/// Calls `mini_redis::Command::from_frame`.  The contract claims only that
/// the outcome is a function of the frame (named `parsed_command`): `GET` and
/// `SET` keep their key (and `SET` its value; its expiry is dropped), other
/// commands keep their debug text, an error keeps its message.
///
/// It also claims what mini-redis's source shows of the two plain requests:
/// the command name is matched after lower-casing; the key is the bulk
/// string's bytes read as UTF-8, unchanged; the value is the bulk string's
/// bytes; a `GET` of two parts and a `SET` of three parse with nothing left
/// over.
#[verifier::external_body]
fn command_from_frame(frame: RespFrame) -> (r: Result<Command, String>)
    ensures
        r == parsed_command(frame),
        forall|k: Seq<u8>| #[trigger] is_get_request(frame, k) && valid_utf8(k) ==> parses_to_get(r, decode_utf8(k)),
        forall|k: Seq<u8>, v: Seq<u8>| #[trigger] is_set_request(frame, k, v) && valid_utf8(k) ==> parses_to_set(r, decode_utf8(k), v),
{
    match mini_redis::Command::from_frame(into_redis_frame(frame)) {
        Ok(mini_redis::Command::Get(cmd)) => Ok(Command::Get { key: cmd.key().to_string() }),
        Ok(mini_redis::Command::Set(cmd)) => Ok(
            Command::SetValue { key: cmd.key().to_string(), value: cmd.value().to_vec() },
        ),
        Ok(other) => Ok(Command::Unsupported { description: format!("{:?}", other) }),
        Err(e) => Err(e.to_string()),
    }
}

/// An in-memory key/value store: each key at most once, with the value last
/// set for it.
pub struct Db {
    entries: Vec<(String, Vec<u8>)>,
    contents: Ghost<Map<Seq<char>, Seq<u8>>>,
}

impl View for Db {
    type V = Map<Seq<char>, Seq<u8>>;

    closed spec fn view(&self) -> Map<Seq<char>, Seq<u8>> {
        self.contents@
    }
}

impl Db {
    /// The entries hold each key once and agree with the view.
    pub closed spec fn wf(&self) -> bool {
        &&& forall|i: int, j: int|
            0 <= i < j < self.entries@.len() ==> (#[trigger] self.entries@[i]).0@
                != (#[trigger] self.entries@[j]).0@
        &&& forall|i: int|
            0 <= i < self.entries@.len() ==> {
                &&& self.contents@.contains_key((#[trigger] self.entries@[i]).0@)
                &&& self.contents@[self.entries@[i].0@] == self.entries@[i].1@
            }
        &&& forall|k: Seq<char>|
            #[trigger] self.contents@.contains_key(k) ==> exists|i: int|
                0 <= i < self.entries@.len() && (#[trigger] self.entries@[i]).0@ == k
    }

    /// An empty store.
    pub fn new() -> (db: Db)
        ensures
            db.wf(),
            db@ == Map::<Seq<char>, Seq<u8>>::empty(),
    {
        Db { entries: Vec::new(), contents: Ghost(Map::empty()) }
    }

    /// Where `key` is held, if anywhere.
    fn find(&self, key: &String) -> (r: Option<usize>)
        requires
            self.wf(),
        ensures
            match r {
                Some(i) => i < self.entries@.len() && self.entries@[i as int].0@ == key@,
                None => !self@.contains_key(key@),
            },
    {
        let mut i: usize = 0;
        while i < self.entries.len()
            invariant
                self.wf(),
                i <= self.entries@.len(),
                forall|j: int| 0 <= j < i ==> (#[trigger] self.entries@[j]).0@ != key@,
            decreases self.entries@.len() - i,
        {
            if self.entries[i].0 == *key {
                return Some(i);
            }
            i = i + 1;
        }
        None
    }

    /// The value stored under `key`, if any.
    pub fn get(&self, key: &String) -> (r: Option<Vec<u8>>)
        requires
            self.wf(),
        ensures
            match r {
                Some(v) => self@.contains_key(key@) && v@ == self@[key@],
                None => !self@.contains_key(key@),
            },
    {
        match self.find(key) {
            Some(i) => {
                let v = self.entries[i].1.clone();
                assert(v@ =~= self.entries@[i as int].1@);
                Some(v)
            },
            None => None,
        }
    }

    /// Store `value` under `key`, replacing what was there.
    pub fn set(&mut self, key: String, value: Vec<u8>)
        requires
            old(self).wf(),
        ensures
            final(self).wf(),
            final(self)@ == old(self)@.insert(key@, value@),
    {
        let ghost new_contents = self.contents@.insert(key@, value@);
        match self.find(&key) {
            Some(i) => {
                self.entries.set(i, (key, value));
                self.contents = Ghost(new_contents);
                assert forall|k: Seq<char>| #[trigger] self.contents@.contains_key(k) implies exists|
                    j: int,
                | 0 <= j < self.entries@.len() && (#[trigger] self.entries@[j]).0@ == k by {
                    if k != self.entries@[i as int].0@ {
                        let j = choose|j: int|
                            0 <= j < old(self).entries@.len() && (#[trigger] old(
                                self,
                            ).entries@[j]).0@ == k;
                        assert(self.entries@[j] == old(self).entries@[j]);
                    }
                }
            },
            None => {
                self.entries.push((key, value));
                self.contents = Ghost(new_contents);
                assert forall|k: Seq<char>| #[trigger] self.contents@.contains_key(k) implies exists|
                    j: int,
                | 0 <= j < self.entries@.len() && (#[trigger] self.entries@[j]).0@ == k by {
                    if k != key@ {
                        let j = choose|j: int|
                            0 <= j < old(self).entries@.len() && (#[trigger] old(
                                self,
                            ).entries@[j]).0@ == k;
                        assert(self.entries@[j] == old(self).entries@[j]);
                    } else {
                        assert(self.entries@[self.entries@.len() - 1].0@ == k);
                    }
                }
            },
        }
    }
}

/// The store after `cmd`: a `SET` stores its value, anything else leaves the
/// store alone.
pub open spec fn store_after(m: Map<Seq<char>, Seq<u8>>, cmd: Command) -> Map<Seq<char>, Seq<u8>> {
    match cmd {
        Command::SetValue { key, value } => m.insert(key@, value@),
        _ => m,
    }
}

/// `reply` is the simple string `OK`.
pub open spec fn is_ok_reply(reply: RespFrame) -> bool {
    reply matches RespFrame::Simple(s) && s@ == "OK"@
}

/// `reply` answers a `GET` of `key` on a store holding `m`: the stored bytes
/// as a bulk frame, or null when the key is absent.
pub open spec fn is_get_reply(m: Map<Seq<char>, Seq<u8>>, key: Seq<char>, reply: RespFrame) -> bool {
    if m.contains_key(key) {
        reply matches RespFrame::Bulk(b) && b@ == m[key]
    } else {
        reply is Null
    }
}

/// `reply` is how the server answers `cmd` on a store holding `m`.
pub open spec fn is_reply_to(m: Map<Seq<char>, Seq<u8>>, cmd: Command, reply: RespFrame) -> bool {
    match cmd {
        Command::SetValue { .. } => is_ok_reply(reply),
        Command::Get { key } => is_get_reply(m, key@, reply),
        Command::Unsupported { .. } => false,
    }
}

/// Run a `GET` or `SET` against the store and build its reply: `SET` stores
/// the value and answers `OK`; `GET` answers the stored bytes, or null.
///
/// Other commands are not executed (the server refuses them before this
/// point).
pub fn execute(db: &mut Db, cmd: Command) -> (reply: RespFrame)
    requires
        old(db).wf(),
        !(cmd is Unsupported),
    ensures
        final(db).wf(),
        final(db)@ == store_after(old(db)@, cmd),
        is_reply_to(old(db)@, cmd, reply),
{
    match cmd {
        Command::SetValue { key, value } => {
            db.set(key, value);
            let ok = "OK".to_owned();
            proof {
                reveal_strlit("OK");
            }
            RespFrame::Simple(ok)
        },
        Command::Get { key } => {
            match db.get(&key) {
                Some(v) => RespFrame::Bulk(v),
                None => RespFrame::Null,
            }
        },
        Command::Unsupported { .. } => RespFrame::Null,
    }
}

/// What the server answers for the outcome of parsing a frame: a parse
/// error or a command other than `GET`/`SET` is rejected and leaves the store
/// alone; otherwise the command is executed as [`execute`] says.
pub fn answer_parsed(db: &mut Db, parsed: Result<Command, String>) -> (r: Result<RespFrame, Rejection>)
    requires
        old(db).wf(),
    ensures
        final(db).wf(),
        match parsed {
            Err(msg) => r == Err::<RespFrame, Rejection>(Rejection::Malformed(msg)) && final(db)@
                == old(db)@,
            Ok(Command::Unsupported { description }) => r == Err::<RespFrame, Rejection>(
                Rejection::Unimplemented(description),
            ) && final(db)@ == old(db)@,
            Ok(cmd) => r matches Ok(reply) && is_reply_to(old(db)@, cmd, reply) && final(db)@
                == store_after(old(db)@, cmd),
        },
{
    match parsed {
        Err(msg) => Err(Rejection::Malformed(msg)),
        Ok(Command::Unsupported { description }) => Err(Rejection::Unimplemented(description)),
        Ok(cmd) => Ok(execute(db, cmd)),
    }
}

/// Answer one frame received on a connection: mini-redis parses it, and the
/// outcome is answered as [`answer_parsed`] says.
///
/// In particular a `GET key` request answers what is stored under exactly
/// that key (its bytes read as UTF-8, in no other case or form) and changes
/// nothing, and a `SET key value` request stores the value under exactly that
/// key and answers `OK`.
pub fn process_frame(db: &mut Db, frame: RespFrame) -> (r: Result<RespFrame, Rejection>)
    requires
        old(db).wf(),
    ensures
        final(db).wf(),
        forall|k: Seq<u8>|
            #[trigger] is_get_request(frame, k) && valid_utf8(k) ==> final(db)@ == old(db)@ && (r matches Ok(
                reply,
            ) && is_get_reply(old(db)@, decode_utf8(k), reply)),
        forall|k: Seq<u8>, v: Seq<u8>|
            #[trigger] is_set_request(frame, k, v) && valid_utf8(k) ==> final(db)@ == old(db)@.insert(
                decode_utf8(k),
                v,
            ) && (r matches Ok(reply) && is_ok_reply(reply)),
        match parsed_command(frame) {
            Err(msg) => r == Err::<RespFrame, Rejection>(Rejection::Malformed(msg)) && final(db)@
                == old(db)@,
            Ok(Command::Unsupported { description }) => r == Err::<RespFrame, Rejection>(
                Rejection::Unimplemented(description),
            ) && final(db)@ == old(db)@,
            Ok(cmd) => r matches Ok(reply) && is_reply_to(old(db)@, cmd, reply) && final(db)@
                == store_after(old(db)@, cmd),
        },
{
    let parsed = command_from_frame(frame);
    answer_parsed(db, parsed)
}

/// The reply of the first, unimplemented version of the server to any frame:
/// the error `unimplemented`.
pub fn unimplemented_reply() -> (reply: RespFrame)
    ensures
        reply matches RespFrame::Error(s) && s@ == "unimplemented"@,
{
    let msg = "unimplemented".to_owned();
    proof {
        reveal_strlit("unimplemented");
    }
    RespFrame::Error(msg)
}

/// Read after write: once `SET key value` has run, `GET key` answers `value`.
pub proof fn law_get_after_set(m: Map<Seq<char>, Seq<u8>>, key: String, value: Vec<u8>, reply: RespFrame)
    requires
        is_get_reply(store_after(m, Command::SetValue { key, value }), key@, reply),
    ensures
        reply matches RespFrame::Bulk(b) && b@ == value@,
{
}

/// A `SET` of one key leaves what a `GET` of another key answers unchanged.
pub proof fn law_set_leaves_other_keys(
    m: Map<Seq<char>, Seq<u8>>,
    key: String,
    value: Vec<u8>,
    other: Seq<char>,
    reply: RespFrame,
)
    requires
        other != key@,
    ensures
        is_get_reply(store_after(m, Command::SetValue { key, value }), other, reply)
            == is_get_reply(m, other, reply),
{
}

/// A `GET` does not change the store.
pub proof fn law_get_is_read_only(m: Map<Seq<char>, Seq<u8>>, key: String)
    ensures
        store_after(m, Command::Get { key }) == m,
{
}

/// The last `SET` of a key wins: setting `v1` then `v2` leaves the store as
/// setting `v2` alone.
pub proof fn law_last_set_wins(m: Map<Seq<char>, Seq<u8>>, key: String, v1: Vec<u8>, v2: Vec<u8>)
    ensures
        store_after(store_after(m, Command::SetValue { key, value: v1 }), Command::SetValue { key, value: v2 })
            == store_after(m, Command::SetValue { key, value: v2 }),
{
    assert(store_after(store_after(m, Command::SetValue { key, value: v1 }), Command::SetValue { key, value: v2 })
        =~= store_after(m, Command::SetValue { key, value: v2 }));
}

/// Request keys are exact: two request keys with different bytes name
/// different store keys, so no case folding or other normalisation makes them
/// meet.
pub proof fn law_request_keys_are_exact(k1: Seq<u8>, k2: Seq<u8>)
    requires
        valid_utf8(k1),
        valid_utf8(k2),
        k1 != k2,
    ensures
        decode_utf8(k1) != decode_utf8(k2),
{
    vstd::utf8::decode_utf8_encode_utf8(k1);
    vstd::utf8::decode_utf8_encode_utf8(k2);
}

/// The store key a request names is the text whose UTF-8 bytes are the
/// request's key bytes.
pub proof fn law_request_key_bytes(k: Seq<u8>)
    requires
        valid_utf8(k),
    ensures
        encode_utf8(decode_utf8(k)) == k,
{
    vstd::utf8::decode_utf8_encode_utf8(k);
}

/// After `SET k v`, a `GET` of a key with other bytes answers what it
/// answered before the `SET`.
pub proof fn law_set_request_leaves_other_request_keys(
    m: Map<Seq<char>, Seq<u8>>,
    k: Seq<u8>,
    v: Seq<u8>,
    other: Seq<u8>,
    reply: RespFrame,
)
    requires
        valid_utf8(k),
        valid_utf8(other),
        k != other,
    ensures
        is_get_reply(m.insert(decode_utf8(k), v), decode_utf8(other), reply) == is_get_reply(
            m,
            decode_utf8(other),
            reply,
        ),
{
    law_request_keys_are_exact(k, other);
}

} // verus!
