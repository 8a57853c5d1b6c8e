//! The field store of a tracing layer: the values recorded for an event or a
//! span, kept by field name in the order of the names' bytes (the order of a
//! `BTreeMap<String, _>`), the last value recorded for a name winning.

use vstd::prelude::*;
use vstd::utf8::encode_utf8;

verus! {

/// `a` comes strictly before `b` in the lexicographic order of bytes, the
/// order in which `String`s compare.
pub open spec fn bytes_less(a: Seq<u8>, b: Seq<u8>) -> bool
    decreases a.len(),
{
    if a.len() == 0 {
        b.len() > 0
    } else if b.len() == 0 {
        false
    } else if a[0] != b[0] {
        a[0] < b[0]
    } else {
        bytes_less(a.drop_first(), b.drop_first())
    }
}

/// The bytes by which a field name is ordered: its UTF-8 encoding.
pub open spec fn name_bytes(name: Seq<char>) -> Seq<u8> {
    encode_utf8(name)
}

/// The byte order decides at the first position where the sequences differ,
/// by comparing the two bytes there as numbers.
pub proof fn law_bytes_less_first_difference(a: Seq<u8>, b: Seq<u8>, i: int)
    requires
        0 <= i < a.len(),
        i < b.len(),
        a.take(i) == b.take(i),
        a[i] != b[i],
    ensures
        bytes_less(a, b) == (a[i] < b[i]),
    decreases i,
{
    if i > 0 {
        assert(a[0] == a.take(i)[0]);
        assert(b[0] == b.take(i)[0]);
        assert(a.drop_first().take(i - 1) =~= a.take(i).drop_first());
        assert(b.drop_first().take(i - 1) =~= b.take(i).drop_first());
        law_bytes_less_first_difference(a.drop_first(), b.drop_first(), i - 1);
    }
}

/// A proper prefix comes first.
pub proof fn law_bytes_less_prefix(a: Seq<u8>, b: Seq<u8>)
    requires
        a.len() < b.len(),
        b.take(a.len() as int) == a,
    ensures
        bytes_less(a, b),
        !bytes_less(b, a),
    decreases a.len(),
{
    if a.len() > 0 {
        assert(a[0] == b.take(a.len() as int)[0]);
        assert(b.drop_first().take(a.len() - 1) =~= b.take(a.len() as int).drop_first());
        law_bytes_less_prefix(a.drop_first(), b.drop_first());
    }
}

/// No sequence comes before itself.
pub proof fn lemma_bytes_less_irreflexive(a: Seq<u8>)
    ensures
        !bytes_less(a, a),
    decreases a.len(),
{
    if a.len() > 0 {
        lemma_bytes_less_irreflexive(a.drop_first());
    }
}

/// The byte order is transitive.
pub proof fn lemma_bytes_less_transitive(a: Seq<u8>, b: Seq<u8>, c: Seq<u8>)
    requires
        bytes_less(a, b),
        bytes_less(b, c),
    ensures
        bytes_less(a, c),
    decreases a.len(),
{
    if a.len() > 0 && b.len() > 0 && c.len() > 0 && a[0] == b[0] && b[0] == c[0] {
        lemma_bytes_less_transitive(a.drop_first(), b.drop_first(), c.drop_first());
    }
}

/// Of two different sequences, one comes before the other.
pub proof fn lemma_bytes_less_total(a: Seq<u8>, b: Seq<u8>)
    ensures
        a =~= b || bytes_less(a, b) || bytes_less(b, a),
    decreases a.len(),
{
    if a.len() > 0 && b.len() > 0 && a[0] == b[0] {
        lemma_bytes_less_total(a.drop_first(), b.drop_first());
        if a.drop_first() =~= b.drop_first() {
            assert(a =~= seq![a[0]] + a.drop_first());
            assert(b =~= seq![b[0]] + b.drop_first());
        }
    }
}

/// No two sequences come each before the other.
pub proof fn lemma_bytes_less_asymmetric(a: Seq<u8>, b: Seq<u8>)
    requires
        bytes_less(a, b),
    ensures
        !bytes_less(b, a),
    decreases a.len(),
{
    if a.len() > 0 && b.len() > 0 && a[0] == b[0] {
        lemma_bytes_less_asymmetric(a.drop_first(), b.drop_first());
    }
}

/// Field names with the same bytes are the same name.
pub proof fn lemma_name_bytes_injective(a: Seq<char>, b: Seq<char>)
    requires
        name_bytes(a) == name_bytes(b),
    ensures
        a == b,
{
    vstd::utf8::encode_utf8_decode_utf8(a);
    vstd::utf8::encode_utf8_decode_utf8(b);
}

/// How two byte strings compare.
#[derive(Debug, Clone, Copy, PartialEq, Eq)]
pub enum ByteOrder {
    Less,
    Equal,
    Greater,
}

proof fn lemma_bytes_less_skip(a: Seq<u8>, b: Seq<u8>, i: int)
    requires
        0 <= i < a.len(),
        i < b.len(),
        a[i] == b[i],
    ensures
        bytes_less(a.skip(i), b.skip(i)) == bytes_less(a.skip(i + 1), b.skip(i + 1)),
{
    assert(a.skip(i).drop_first() =~= a.skip(i + 1));
    assert(b.skip(i).drop_first() =~= b.skip(i + 1));
}

/// Compare two byte strings lexicographically.
pub fn compare_bytes(a: &[u8], b: &[u8]) -> (r: ByteOrder)
    ensures
        (r == ByteOrder::Less) == bytes_less(a@, b@),
        (r == ByteOrder::Equal) == (a@ == b@),
        (r == ByteOrder::Greater) == bytes_less(b@, a@),
{
    let mut i: usize = 0;
    proof {
        assert(a@.skip(0) =~= a@);
        assert(b@.skip(0) =~= b@);
    }
    while i < a.len() && i < b.len()
        invariant
            i <= a@.len(),
            i <= b@.len(),
            a@.subrange(0, i as int) == b@.subrange(0, i as int),
            bytes_less(a@, b@) == bytes_less(a@.skip(i as int), b@.skip(i as int)),
            bytes_less(b@, a@) == bytes_less(b@.skip(i as int), a@.skip(i as int)),
        decreases a@.len() - i,
    {
        if a[i] != b[i] {
            proof {
                assert(a@.skip(i as int)[0] == a@[i as int]);
                assert(b@.skip(i as int)[0] == b@[i as int]);
                assert(a@ != b@);
            }
            if a[i] < b[i] {
                return ByteOrder::Less;
            } else {
                return ByteOrder::Greater;
            }
        }
        proof {
            lemma_bytes_less_skip(a@, b@, i as int);
            lemma_bytes_less_skip(b@, a@, i as int);
            assert(a@.subrange(0, i + 1) =~= a@.subrange(0, i as int).push(a@[i as int]));
            assert(b@.subrange(0, i + 1) =~= b@.subrange(0, i as int).push(b@[i as int]));
        }
        i = i + 1;
    }
    proof {
        if i == a@.len() {
            assert(a@.subrange(0, i as int) =~= a@);
        }
        if i == b@.len() {
            assert(b@.subrange(0, i as int) =~= b@);
        }
        lemma_bytes_less_irreflexive(a@);
    }
    if a.len() == b.len() {
        proof {
            assert(a@ =~= b@);
        }
        ByteOrder::Equal
    } else if a.len() < b.len() {
        proof {
            assert(a@.skip(i as int).len() == 0);
            assert(a@ != b@);
        }
        ByteOrder::Less
    } else {
        proof {
            assert(b@.skip(i as int).len() == 0);
            assert(a@ != b@);
        }
        ByteOrder::Greater
    }
}

/// A recorded field value, as a JSON value would hold it.
///
/// A float is kept as its IEEE-754 bit pattern.  Strings, errors (their
/// display text) and debug renderings are all text.
#[derive(Debug, PartialEq, Eq)]
pub enum FieldValue {
    Float(u64),
    Int(i64),
    UInt(u64),
    Bool(bool),
    Text(String),
}

/// The names of `s` are in strictly increasing byte order.
pub open spec fn sorted_by_name(s: Seq<(String, FieldValue)>) -> bool {
    forall|i: int, j: int|
        0 <= i < j < s.len() ==> bytes_less(
            name_bytes((#[trigger] s[i]).0@),
            name_bytes((#[trigger] s[j]).0@),
        )
}

/// `s` lists the map `m`: sorted by name, each entry holding the name's value
/// in `m`, every name of `m` present.
pub open spec fn lists(s: Seq<(String, FieldValue)>, m: Map<Seq<char>, FieldValue>) -> bool {
    &&& sorted_by_name(s)
    &&& forall|i: int|
        0 <= i < s.len() ==> {
            &&& m.contains_key((#[trigger] s[i]).0@)
            &&& m[s[i].0@] == s[i].1
        }
    &&& forall|k: Seq<char>|
        #[trigger] m.contains_key(k) ==> exists|i: int| 0 <= i < s.len() && (#[trigger] s[i]).0@ == k
}

proof fn lemma_sorted_insert(s: Seq<(String, FieldValue)>, i: int, e: (String, FieldValue))
    requires
        sorted_by_name(s),
        0 <= i <= s.len(),
        forall|j: int| 0 <= j < i ==> bytes_less(name_bytes((#[trigger] s[j]).0@), name_bytes(e.0@)),
        i < s.len() ==> bytes_less(name_bytes(e.0@), name_bytes(s[i].0@)),
    ensures
        sorted_by_name(s.insert(i, e)),
{
    let t = s.insert(i, e);
    assert forall|j: int, l: int| 0 <= j < l < t.len() implies bytes_less(
        name_bytes((#[trigger] t[j]).0@),
        name_bytes((#[trigger] t[l]).0@),
    ) by {
        if l < i {
            assert(t[j] == s[j] && t[l] == s[l]);
        } else if l == i {
            assert(t[j] == s[j]);
        } else if j < i {
            assert(t[j] == s[j] && t[l] == s[l - 1]);
            if l - 1 > i {
                assert(bytes_less(name_bytes(s[i].0@), name_bytes(s[l - 1].0@)));
                lemma_bytes_less_transitive(
                    name_bytes(e.0@),
                    name_bytes(s[i].0@),
                    name_bytes(s[l - 1].0@),
                );
            }
            lemma_bytes_less_transitive(
                name_bytes(s[j].0@),
                name_bytes(e.0@),
                name_bytes(s[l - 1].0@),
            );
        } else if j == i {
            assert(t[l] == s[l - 1]);
            if l - 1 > i {
                assert(bytes_less(name_bytes(s[i].0@), name_bytes(s[l - 1].0@)));
                lemma_bytes_less_transitive(
                    name_bytes(e.0@),
                    name_bytes(s[i].0@),
                    name_bytes(s[l - 1].0@),
                );
            }
        } else {
            assert(t[j] == s[j - 1] && t[l] == s[l - 1]);
        }
    }
}

/// The fields recorded for a span or an event: each name once, with the value
/// last recorded for it, listed in the byte order of the names.
pub struct FieldStorage {
    entries: Vec<(String, FieldValue)>,
    contents: Ghost<Map<Seq<char>, FieldValue>>,
}

impl View for FieldStorage {
    type V = Map<Seq<char>, FieldValue>;

    closed spec fn view(&self) -> Map<Seq<char>, FieldValue> {
        self.contents@
    }
}

impl FieldStorage {
    /// The entries list the view.
    pub closed spec fn wf(&self) -> bool {
        lists(self.entries@, self.contents@)
    }

    /// A store with no field.
    pub fn new() -> (s: FieldStorage)
        ensures
            s.wf(),
            s@ == Map::<Seq<char>, FieldValue>::empty(),
    {
        FieldStorage { entries: Vec::new(), contents: Ghost(Map::empty()) }
    }

    /// The fields in increasing byte order of their names.
    pub fn entries(&self) -> (r: &Vec<(String, FieldValue)>)
        requires
            self.wf(),
        ensures
            lists(r@, self@),
    {
        &self.entries
    }

    /// Record `value` for the field `name`, replacing an earlier value.
    pub fn record(&mut self, name: String, value: FieldValue)
        requires
            old(self).wf(),
        ensures
            final(self).wf(),
            final(self)@ == old(self)@.insert(name@, value),
    {
        let ghost new_contents = self.contents@.insert(name@, value);
        let ghost old_entries = self.entries@;
        let mut i: usize = 0;
        while i < self.entries.len()
            invariant
                self.wf(),
                self.entries@ == old_entries,
                self.contents@ == old(self).contents@,
                new_contents == self.contents@.insert(name@, value),
                i <= self.entries@.len(),
                forall|j: int|
                    0 <= j < i ==> bytes_less(
                        name_bytes((#[trigger] self.entries@[j]).0@),
                        name_bytes(name@),
                    ),
            decreases self.entries@.len() - i,
        {
            let ord = compare_bytes(self.entries[i].0.as_str().as_bytes(), name.as_str().as_bytes());
            match ord {
                ByteOrder::Less => {
                    i = i + 1;
                },
                ByteOrder::Equal => {
                    proof {
                        lemma_name_bytes_injective(old_entries[i as int].0@, name@);
                    }
                    self.entries.set(i, (name, value));
                    self.contents = Ghost(new_contents);
                    proof {
                        self.lemma_replaced(old_entries, i as int);
                    }
                    return ;
                },
                ByteOrder::Greater => {
                    let ghost e = (name, value);
                    self.entries.insert(i, (name, value));
                    self.contents = Ghost(new_contents);
                    proof {
                        lemma_sorted_insert(old_entries, i as int, e);
                        self.lemma_inserted(old_entries, i as int, old(self).contents@);
                    }
                    return ;
                },
            }
        }
        let ghost e = (name, value);
        self.entries.push((name, value));
        self.contents = Ghost(new_contents);
        proof {
            assert(old_entries.insert(i as int, e) =~= self.entries@);
            lemma_sorted_insert(old_entries, i as int, e);
            self.lemma_inserted(old_entries, i as int, old(self).contents@);
        }
    }

    proof fn lemma_replaced(&self, old_entries: Seq<(String, FieldValue)>, i: int)
        requires
            0 <= i < old_entries.len(),
            self.entries@ == old_entries.update(i, self.entries@[i]),
            old_entries[i].0@ == self.entries@[i].0@,
            exists|m: Map<Seq<char>, FieldValue>|
                lists(old_entries, m) && self.contents@ == m.insert(
                    self.entries@[i].0@,
                    self.entries@[i].1,
                ),
        ensures
            self.wf(),
    {
        let m = choose|m: Map<Seq<char>, FieldValue>|
            lists(old_entries, m) && self.contents@ == m.insert(
                self.entries@[i].0@,
                self.entries@[i].1,
            );
        let s = self.entries@;
        let key = s[i].0@;
        assert forall|j: int, l: int| 0 <= j < l < s.len() implies bytes_less(
            name_bytes((#[trigger] s[j]).0@),
            name_bytes((#[trigger] s[l]).0@),
        ) by {
            assert(old_entries[j].0@ == s[j].0@);
            assert(old_entries[l].0@ == s[l].0@);
        }
        assert forall|j: int| 0 <= j < s.len() && j != i implies (#[trigger] s[j]).0@ != key by {
            assert(s[j] == old_entries[j]);
            if s[j].0@ == key {
                lemma_bytes_less_irreflexive(name_bytes(key));
                if j < i {
                    assert(bytes_less(name_bytes(old_entries[j].0@), name_bytes(old_entries[i].0@)));
                } else {
                    assert(bytes_less(name_bytes(old_entries[i].0@), name_bytes(old_entries[j].0@)));
                }
            }
        }
        assert forall|j: int| 0 <= j < s.len() implies {
            &&& self.contents@.contains_key((#[trigger] s[j]).0@)
            &&& self.contents@[s[j].0@] == s[j].1
        } by {
            if j != i {
                assert(s[j] == old_entries[j]);
            }
        }
        assert forall|k: Seq<char>| #[trigger] self.contents@.contains_key(k) implies exists|
            j: int,
        | 0 <= j < s.len() && (#[trigger] s[j]).0@ == k by {
            if k != key {
                assert(m.contains_key(k));
                let j = choose|j: int| 0 <= j < old_entries.len() && (#[trigger] old_entries[j]).0@ == k;
                assert(s[j] == old_entries[j]);
            }
        }
    }

    proof fn lemma_inserted(
        &self,
        old_entries: Seq<(String, FieldValue)>,
        i: int,
        m: Map<Seq<char>, FieldValue>,
    )
        requires
            0 <= i <= old_entries.len(),
            lists(old_entries, m),
            self.entries@ == old_entries.insert(i, self.entries@[i]),
            sorted_by_name(self.entries@),
            self.contents@ == m.insert(self.entries@[i].0@, self.entries@[i].1),
        ensures
            self.wf(),
    {
        let s = self.entries@;
        let key = s[i].0@;
        assert forall|j: int| 0 <= j < s.len() && j != i implies (#[trigger] s[j]).0@ != key by {
            if s[j].0@ == key {
                lemma_bytes_less_irreflexive(name_bytes(key));
                if j < i {
                    assert(bytes_less(name_bytes(s[j].0@), name_bytes(s[i].0@)));
                } else {
                    assert(bytes_less(name_bytes(s[i].0@), name_bytes(s[j].0@)));
                }
            }
        }
        assert forall|j: int| 0 <= j < s.len() implies {
            &&& self.contents@.contains_key((#[trigger] s[j]).0@)
            &&& self.contents@[s[j].0@] == s[j].1
        } by {
            if j < i {
                assert(s[j] == old_entries[j]);
            } else if j > i {
                assert(s[j] == old_entries[j - 1]);
            }
        }
        assert forall|k: Seq<char>| #[trigger] self.contents@.contains_key(k) implies exists|
            j: int,
        | 0 <= j < s.len() && (#[trigger] s[j]).0@ == k by {
            if k != key {
                assert(m.contains_key(k));
                let j = choose|j: int| 0 <= j < old_entries.len() && (#[trigger] old_entries[j]).0@ == k;
                if j < i {
                    assert(s[j] == old_entries[j]);
                } else {
                    assert(s[j + 1] == old_entries[j]);
                }
            } else {
                assert(s[i].0@ == k);
            }
        }
    }
}

/// The fields after recording `values` in order into `m`: a left fold of
/// inserts, so a name ends with the value last recorded for it.
pub open spec fn record_all(
    m: Map<Seq<char>, FieldValue>,
    values: Seq<(String, FieldValue)>,
) -> Map<Seq<char>, FieldValue>
    decreases values.len(),
{
    if values.len() == 0 {
        m
    } else {
        record_all(m, values.drop_last()).insert(values.last().0@, values.last().1)
    }
}

impl FieldStorage {
    /// Record each of `values` in order, as a visitor records an event's or a
    /// span's fields one after the other.
    pub fn record_each(&mut self, values: Vec<(String, FieldValue)>)
        requires
            old(self).wf(),
        ensures
            final(self).wf(),
            final(self)@ == record_all(old(self)@, values@),
    {
        let ghost all = values@;
        let total: usize = values.len();
        let mut rest = values;
        let mut done: usize = 0;
        proof {
            assert(all.take(0) =~= Seq::<(String, FieldValue)>::empty());
            assert(all.skip(0) =~= all);
        }
        while rest.len() > 0
            invariant
                self.wf(),
                done <= all.len(),
                rest@ == all.skip(done as int),
                done + rest@.len() == all.len(),
                all.len() == total,
                self@ == record_all(old(self)@, all.take(done as int)),
            decreases rest@.len(),
        {
            let (name, value) = rest.remove(0);
            proof {
                assert(all.take(done + 1).drop_last() =~= all.take(done as int));
                assert(all.skip(done + 1) =~= all.skip(done as int).drop_first());
            }
            self.record(name, value);
            done = done + 1;
        }
        proof {
            assert(all.take(done as int) =~= all);
        }
    }
}

/// The value a name ends with is the last one recorded for it.
pub proof fn law_last_record_wins(
    m: Map<Seq<char>, FieldValue>,
    values: Seq<(String, FieldValue)>,
    i: int,
)
    requires
        0 <= i < values.len(),
        forall|j: int| i < j < values.len() ==> (#[trigger] values[j]).0@ != values[i].0@,
    ensures
        record_all(m, values).contains_key(values[i].0@),
        record_all(m, values)[values[i].0@] == values[i].1,
    decreases values.len(),
{
    if i < values.len() - 1 {
        let init = values.drop_last();
        assert forall|j: int| i < j < init.len() implies (#[trigger] init[j]).0@ != init[i].0@ by {
            assert(init[j] == values[j]);
        }
        law_last_record_wins(m, init, i);
        assert(values[values.len() - 1].0@ != values[i].0@);
    }
}

/// A name that is not recorded keeps what it had (or stays absent).
pub proof fn law_unrecorded_name_kept(
    m: Map<Seq<char>, FieldValue>,
    values: Seq<(String, FieldValue)>,
    name: Seq<char>,
)
    requires
        forall|j: int| 0 <= j < values.len() ==> (#[trigger] values[j]).0@ != name,
    ensures
        record_all(m, values).contains_key(name) == m.contains_key(name),
        m.contains_key(name) ==> record_all(m, values)[name] == m[name],
    decreases values.len(),
{
    if values.len() > 0 {
        let init = values.drop_last();
        assert forall|j: int| 0 <= j < init.len() implies (#[trigger] init[j]).0@ != name by {
            assert(init[j] == values[j]);
        }
        law_unrecorded_name_kept(m, init, name);
        assert(values[values.len() - 1].0@ != name);
    }
}

/// Recording two batches one after the other (a span's attributes, then
/// values recorded on it later) is recording them as one sequence.
pub proof fn law_record_in_batches(
    m: Map<Seq<char>, FieldValue>,
    first: Seq<(String, FieldValue)>,
    second: Seq<(String, FieldValue)>,
)
    ensures
        record_all(record_all(m, first), second) == record_all(m, first + second),
    decreases second.len(),
{
    if second.len() == 0 {
        assert(first + second =~= first);
    } else {
        law_record_in_batches(m, first, second.drop_last());
        assert((first + second).drop_last() =~= first + second.drop_last());
        assert((first + second).last() == second.last());
    }
}

/// What a layer reports of one event: its level (debug text), target, name
/// and recorded fields.
pub struct EventRecord {
    pub level: String,
    pub target: String,
    pub name: String,
    pub fields: FieldStorage,
}

/// A tracing layer that keeps each span's fields and reports each event with
/// its fields.  The subscriber plumbing (visiting fields, storing the span's
/// fields in its extensions, printing) belongs to the caller; this type holds
/// what the layer does with the recorded values.
pub struct CustomLayer;

impl CustomLayer {
    /// The fields stored for a new span: its attributes recorded in order.
    pub fn on_new_span(&self, values: Vec<(String, FieldValue)>) -> (storage: FieldStorage)
        ensures
            storage.wf(),
            storage@ == record_all(Map::empty(), values@),
    {
        let mut storage = FieldStorage::new();
        storage.record_each(values);
        storage
    }

    /// Values recorded on a span after its creation update its stored fields.
    pub fn on_record(&self, storage: &mut FieldStorage, values: Vec<(String, FieldValue)>)
        requires
            old(storage).wf(),
        ensures
            final(storage).wf(),
            final(storage)@ == record_all(old(storage)@, values@),
    {
        storage.record_each(values);
    }

    /// The report of an event: its metadata and its fields recorded in order.
    pub fn on_event(
        &self,
        level: String,
        target: String,
        name: String,
        values: Vec<(String, FieldValue)>,
    ) -> (r: EventRecord)
        ensures
            r.level == level,
            r.target == target,
            r.name == name,
            r.fields.wf(),
            r.fields@ == record_all(Map::empty(), values@),
    {
        let mut fields = FieldStorage::new();
        fields.record_each(values);
        EventRecord { level, target, name, fields }
    }
}

/// A field visitor that prints each field as `field = <name>, value = <value>`.
/// The printing is the caller's; the type marks the visitor.
pub struct PrintlnVisitor;

} // verus!
