//! JSON values, with objects as finite maps, and their textual form.
use crate::text;
use crate::text::Text;
use vstd::prelude::*;

verus! {

/// The numeral of a JSON number that is no 64-bit integer, as `serde_json` prints it.
#[derive(Debug)]
pub struct Decimal {
    numeral: String,
}

impl Decimal {
    fn is_zero(&self) -> (r: bool)
        ensures
            r == (plain_numeral(self@) == "0.0"@),
    {
        text::same(self.numeral.as_str(), "0.0") || text::same(self.numeral.as_str(), "-0.0")
    }

    fn same(&self, other: &Decimal) -> (r: bool)
        ensures
            r == (plain_numeral(self@) == plain_numeral(other@)),
    {
        if self.is_zero() {
            other.is_zero()
        } else {
            self.numeral == other.numeral
        }
    }
}

impl View for Decimal {
    type V = Text;

    closed spec fn view(&self) -> Text {
        self.numeral@
    }
}

/// A JSON value. Of several entries of an object with one key the last counts. A number from
/// zero on is the same whether it is held signed or unsigned.
#[derive(Debug)]
pub enum Json {
    Null,
    Bool(bool),
    Unsigned(u64),
    Negative(i64),
    Decimal(Decimal),
    Text(String),
    Array(Vec<Json>),
    Object(Vec<(String, Json)>),
}

/// A JSON value as contracts see it.
#[verifier::ext_equal]
pub enum JsonModel {
    Null,
    Bool(bool),
    Unsigned(u64),
    Negative(i64),
    Decimal(Text),
    Text(Text),
    Array(Seq<JsonModel>),
    Object(Map<Text, JsonModel>),
}

impl View for Json {
    type V = JsonModel;

    open spec fn view(&self) -> JsonModel {
        model(*self)
    }
}

impl DeepView for Json {
    type V = JsonModel;

    open spec fn deep_view(&self) -> JsonModel {
        model(*self)
    }
}

/// What a value says.
pub open spec fn model(json: Json) -> JsonModel
    decreases json,
{
    match json {
        Json::Null => JsonModel::Null,
        Json::Bool(b) => JsonModel::Bool(b),
        Json::Unsigned(n) => JsonModel::Unsigned(n),
        Json::Negative(n) => if n < 0 {
            JsonModel::Negative(n)
        } else {
            JsonModel::Unsigned(n as u64)
        },
        Json::Decimal(n) => JsonModel::Decimal(n@),
        Json::Text(s) => JsonModel::Text(s@),
        Json::Array(items) => JsonModel::Array(
            Seq::new(
                items@.len(),
                |i: int|
                    if 0 <= i < items@.len() {
                        model(items@[i])
                    } else {
                        JsonModel::Null
                    },
            ),
        ),
        Json::Object(entries) => JsonModel::Object(entries_model(entries@)),
    }
}

/// The map that the entries of an object say.
pub open spec fn entries_model(entries: Seq<(String, Json)>) -> Map<Text, JsonModel>
    decreases entries,
{
    if entries.len() == 0 {
        Map::empty()
    } else {
        entries_model(entries.drop_last()).insert(entries.last().0@, model(entries.last().1))
    }
}

/// A numeral, the two zeros of a decimal being one number.
pub open spec fn plain_numeral(numeral: Text) -> Text {
    if numeral == "-0.0"@ {
        "0.0"@
    } else {
        numeral
    }
}

impl JsonModel {
    /// What a value is compared by: its numbers count, not the sign of a decimal zero.
    pub open spec fn plain(self) -> JsonModel
        decreases self,
    {
        match self {
            JsonModel::Decimal(numeral) => JsonModel::Decimal(plain_numeral(numeral)),
            JsonModel::Array(items) => JsonModel::Array(
                Seq::new(
                    items.len(),
                    |i: int|
                        if 0 <= i < items.len() {
                            items[i].plain()
                        } else {
                            JsonModel::Null
                        },
                ),
            ),
            JsonModel::Object(members) => JsonModel::Object(
                Map::new(
                    |key: Text| members.contains_key(key),
                    |key: Text|
                        if members.contains_key(key) {
                            members[key].plain()
                        } else {
                            JsonModel::Null
                        },
                ),
            ),
            _ => self,
        }
    }

    /// The member of an object, and null where there is none.
    pub open spec fn at(self, key: Text) -> JsonModel {
        match self {
            JsonModel::Object(m) => if m.contains_key(key) {
                m[key]
            } else {
                JsonModel::Null
            },
            _ => JsonModel::Null,
        }
    }

    /// Whether this is an object with a member of that key.
    pub open spec fn has(self, key: Text) -> bool {
        match self {
            JsonModel::Object(m) => m.contains_key(key),
            _ => false,
        }
    }

    /// An object with one more member, the former one of that key replaced.
    pub open spec fn with(self, key: Text, value: JsonModel) -> JsonModel {
        match self {
            JsonModel::Object(m) => JsonModel::Object(m.insert(key, value)),
            _ => self,
        }
    }

    /// The object without members.
    pub open spec fn empty() -> JsonModel {
        JsonModel::Object(Map::empty())
    }
}

proof fn lemma_entries_finite(entries: Seq<(String, Json)>)
    ensures
        entries_model(entries).dom().finite(),
    decreases entries.len(),
{
    if entries.len() > 0 {
        lemma_entries_finite(entries.drop_last());
    }
}

/// The last entry of a key gives its value, and a key without entry is none of the map.
proof fn lemma_entries_last(entries: Seq<(String, Json)>, key: Text, i: int)
    requires
        -1 <= i < entries.len(),
        forall|j: int| i < j < entries.len() ==> (#[trigger] entries[j]).0@ != key,
        i >= 0 ==> entries[i].0@ == key,
    ensures
        entries_model(entries).contains_key(key) <==> i >= 0,
        i >= 0 ==> entries_model(entries)[key] == model(entries[i].1),
    decreases entries.len(),
{
    if entries.len() > 0 {
        let init = entries.drop_last();
        if i < entries.len() - 1 {
            assert(entries[entries.len() - 1].0@ != key);
            assert forall|j: int| i < j < init.len() implies (#[trigger] init[j]).0@ != key by {
                assert(entries[j].0@ != key);
            }
            lemma_entries_last(init, key, i);
        }
    }
}

proof fn lemma_entries_congruent(a: Seq<(String, Json)>, b: Seq<(String, Json)>)
    requires
        a.len() == b.len(),
        forall|i: int| 0 <= i < a.len() ==> (#[trigger] a[i]).0@ == b[i].0@,
        forall|i: int| 0 <= i < a.len() ==> model((#[trigger] a[i]).1) == model(b[i].1),
    ensures
        entries_model(a) == entries_model(b),
    decreases a.len(),
{
    if a.len() > 0 {
        let (x, y) = (a.drop_last(), b.drop_last());
        assert forall|i: int| 0 <= i < x.len() implies (#[trigger] x[i]).0@ == y[i].0@ && model(x[i].1)
            == model(y[i].1) by {
            assert(a[i].0@ == b[i].0@);
        }
        lemma_entries_congruent(x, y);
        assert(a[a.len() - 1].0@ == b[b.len() - 1].0@);
    }
}

/// The index of the entry that counts for a key.
fn find(entries: &Vec<(String, Json)>, key: &str) -> (r: Option<usize>)
    ensures
        match r {
            Some(i) => i < entries@.len() && entries@[i as int].0@ == key@ && entries_model(
                entries@,
            ).contains_key(key@) && entries_model(entries@)[key@] == model(entries@[i as int].1),
            None => !entries_model(entries@).contains_key(key@),
        },
{
    let mut i: usize = entries.len();
    while i > 0
        invariant
            i <= entries@.len(),
            forall|j: int| i <= j < entries@.len() ==> (#[trigger] entries@[j]).0@ != key@,
        decreases i,
    {
        i -= 1;
        if text::same(entries[i].0.as_str(), key) {
            proof {
                lemma_entries_last(entries@, key@, i as int);
            }
            return Some(i);
        }
    }
    proof {
        lemma_entries_last(entries@, key@, -1);
    }
    None
}

/// How many keys the entries have that begin with a text.
fn count_keys(entries: &Vec<(String, Json)>, prefix: &str) -> (r: usize)
    ensures
        r == entries_model(entries@).dom().filter(|key: Text| begins(key, prefix@)).len(),
{
    let ghost p = |key: Text| begins(key, prefix@);
    let mut n: usize = 0;
    let mut i: usize = 0;
    proof {
        assert(entries@.take(0) =~= Seq::empty());
        assert(entries_model(entries@.take(0)).dom().filter(p) =~= Set::empty());
    }
    while i < entries.len()
        invariant
            i <= entries@.len(),
            n <= i,
            p == (|key: Text| begins(key, prefix@)),
            n == entries_model(entries@.take(i as int)).dom().filter(p).len(),
        decreases entries@.len() - i,
    {
        let ghost head = entries@.take(i as int);
        let ghost key = entries@[i as int].0@;
        let mut earlier: bool = false;
        let mut k: usize = i;
        while k > 0 && !earlier
            invariant
                k <= i < entries@.len(),
                head == entries@.take(i as int),
                key == entries@[i as int].0@,
                forall|j: int| k <= j < i ==> (#[trigger] head[j]).0@ != key || earlier && j == k,
                earlier ==> k < i && head[k as int].0@ == key,
            decreases k,
        {
            k -= 1;
            assert(head[k as int] == entries@[k as int]);
            earlier = entries[k].0 == entries[i].0;
        }
        let counted: bool = is_beginning(entries[i].0.as_str(), prefix);
        proof {
            lemma_entries_last(head, key, if earlier { k as int } else { -1 });
            lemma_entries_finite(head);
            assert(entries@.take(i + 1).drop_last() =~= head);
            let m = entries_model(head);
            let v = model(entries@[i as int].1);
            let now = m.insert(key, v).dom().filter(p);
            let before = m.dom().filter(p);
            if counted && !earlier {
                assert(now =~= before.insert(key));
                assert(!before.contains(key));
            } else {
                assert(now =~= before);
            }
        }
        if counted && !earlier {
            n += 1;
        }
        i += 1;
    }
    assert(entries@.take(entries@.len() as int) =~= entries@);
    n
}

/// Whether a text begins with another.
pub open spec fn begins(s: Text, prefix: Text) -> bool {
    prefix.len() <= s.len() && s.take(prefix.len() as int) == prefix
}

fn is_beginning(s: &str, prefix: &str) -> (r: bool)
    ensures
        r == begins(s@, prefix@),
{
    let x: Vec<char> = text::characters(s);
    let y: Vec<char> = text::characters(prefix);
    if y.len() > x.len() {
        return false;
    }
    let mut i: usize = 0;
    while i < y.len()
        invariant
            i <= y@.len() <= x@.len(),
            x@ == s@,
            y@ == prefix@,
            forall|j: int| 0 <= j < i ==> x@[j] == #[trigger] y@[j],
        decreases y@.len() - i,
    {
        if x[i] != y[i] {
            assert(x@.take(y@.len() as int)[i as int] != y@[i as int]);
            return false;
        }
        i += 1;
    }
    assert(x@.take(y@.len() as int) =~= y@);
    true
}

impl Json {
    /// The object without members.
    pub fn object() -> (r: Json)
        ensures
            r@ == JsonModel::empty(),
    {
        let entries: Vec<(String, Json)> = Vec::new();
        assert(entries_model(entries@) == Map::<Text, JsonModel>::empty());
        Json::Object(entries)
    }

    /// A text value.
    pub fn text(s: &str) -> (r: Json)
        ensures
            r@ == JsonModel::Text(s@),
    {
        Json::Text(s.to_owned())
    }

    /// The array of the given values.
    pub fn array(items: Vec<Json>) -> (r: Json)
        ensures
            r@ == JsonModel::Array(items.deep_view()),
    {
        let r = Json::Array(items);
        assert(r@->Array_0 =~= items.deep_view());
        r
    }

    /// Sets a member of an object; leaves what is no object as it is.
    pub fn set(&mut self, key: &str, value: Json)
        ensures
            final(self)@ == old(self)@.with(key@, value@),
    {
        match self {
            Json::Object(entries) => {
                let ghost former = entries@;
                if let Some(i) = find(entries, key) {
                    let _gone = entries.remove(i);
                    proof {
                        lemma_remove_entry(former, i as int, value@);
                    }
                }
                let ghost rest = entries@;
                entries.push((key.to_owned(), value));
                assert(entries@.drop_last() =~= rest);
                assert(entries_model(entries@) == entries_model(rest).insert(key@, value@));
            },
            _ => {},
        }
    }

    /// The member of an object.
    pub fn get(&self, key: &str) -> (r: Option<&Json>)
        ensures
            r is Some <==> self@.has(key@),
            r matches Some(v) ==> v@ == self@.at(key@),
    {
        match self {
            Json::Object(entries) => match find(entries, key) {
                Some(i) => Some(&entries[i].1),
                None => None,
            },
            _ => None,
        }
    }

    /// How many members an object has.
    pub fn size(&self) -> (r: usize)
        ensures
            r == match self@ {
                JsonModel::Object(m) => m.dom().len(),
                _ => 0,
            },
    {
        match self {
            Json::Object(entries) => {
                proof {
                    reveal_strlit("");
                    let m = entries_model(entries@);
                    assert(m.dom().filter(|key: Text| begins(key, ""@)) =~= m.dom()) by {
                        assert forall|key: Text| begins(key, ""@) by {
                            assert(key.take(0) =~= ""@);
                        }
                    }
                }
                count_keys(entries, "")
            },
            _ => 0,
        }
    }

    /// How many members an object has whose keys begin with a text.
    pub fn count_keys(&self, prefix: &str) -> (r: usize)
        ensures
            r == match self@ {
                JsonModel::Object(m) => m.dom().filter(|key: Text| begins(key, prefix@)).len(),
                _ => 0,
            },
    {
        match self {
            Json::Object(entries) => count_keys(entries, prefix),
            _ => 0,
        }
    }

    /// The text of a text value.
    pub fn as_text(&self) -> (r: Option<&str>)
        ensures
            match r {
                Some(s) => self@ == JsonModel::Text(s@),
                None => !(self@ is Text),
            },
    {
        match self {
            Json::Text(s) => Some(s.as_str()),
            _ => None,
        }
    }

    /// Whether this is an object without members.
    pub fn is_empty_object(&self) -> (r: bool)
        ensures
            r == (self@ == JsonModel::empty()),
    {
        match self {
            Json::Object(entries) => {
                if entries.len() > 0 {
                    proof {
                        lemma_has_entry(entries@, 0);
                        assert(self@->Object_0.contains_key(entries@[0].0@));
                    }
                    return false;
                }
                assert(entries@.len() == 0);
                assert(entries_model(entries@) =~= Map::empty());
                true
            },
            _ => false,
        }
    }

    /// The number of an integer from zero on.
    pub fn as_u64(&self) -> (r: Option<u64>)
        ensures
            match r {
                Some(n) => self@ == JsonModel::Unsigned(n),
                None => !(self@ is Unsigned),
            },
    {
        match self {
            Json::Unsigned(n) => Some(*n),
            Json::Negative(n) => if *n >= 0 {
                Some(*n as u64)
            } else {
                None
            },
            _ => None,
        }
    }

    /// A copy.
    pub fn dup(&self) -> (r: Json)
        ensures
            r@ == self@,
        decreases self,
    {
        match self {
            Json::Null => Json::Null,
            Json::Bool(b) => Json::Bool(*b),
            Json::Unsigned(n) => Json::Unsigned(*n),
            Json::Negative(n) => Json::Negative(*n),
            Json::Decimal(n) => Json::Decimal(Decimal { numeral: n.numeral.clone() }),
            Json::Text(s) => Json::Text(s.clone()),
            Json::Array(items) => {
                let mut out: Vec<Json> = Vec::new();
                let mut i: usize = 0;
                while i < items.len()
                    invariant
                        i == out@.len(),
                        i <= items@.len(),
                        *self == Json::Array(*items),
                        forall|j: int| 0 <= j < i ==> model(#[trigger] out@[j]) == model(items@[j]),
                    decreases items@.len() - i,
                {
                    assert(decreases_to!(*self => self->Array_0@[i as int]));
                    out.push(items[i].dup());
                    i += 1;
                }
                let r = Json::Array(out);
                assert(r@->Array_0 =~= self@->Array_0);
                r
            },
            Json::Object(entries) => {
                let mut out: Vec<(String, Json)> = Vec::new();
                let mut i: usize = 0;
                while i < entries.len()
                    invariant
                        i == out@.len(),
                        i <= entries@.len(),
                        *self == Json::Object(*entries),
                        forall|j: int| 0 <= j < i ==> (#[trigger] out@[j]).0@ == entries@[j].0@,
                        forall|j: int|
                            0 <= j < i ==> model((#[trigger] out@[j]).1) == model(entries@[j].1),
                    decreases entries@.len() - i,
                {
                    assert(decreases_to!(*self => self->Object_0@[i as int].1));
                    out.push((entries[i].0.clone(), entries[i].1.dup()));
                    i += 1;
                }
                proof {
                    lemma_entries_congruent(out@, entries@);
                }
                Json::Object(out)
            },
        }
    }

    /// Whether two values are equal, whatever the order of their members and the sign of a
    /// decimal zero.
    pub fn same(&self, other: &Json) -> (r: bool)
        ensures
            r == (self@.plain() == other@.plain()),
        decreases self,
    {
        match (self, other) {
            (Json::Null, Json::Null) => true,
            (Json::Bool(a), Json::Bool(b)) => *a == *b,
            (Json::Unsigned(a), Json::Unsigned(b)) => *a == *b,
            (Json::Negative(a), Json::Negative(b)) => *a == *b,
            (Json::Unsigned(a), Json::Negative(b)) => *b >= 0 && *a == *b as u64,
            (Json::Negative(a), Json::Unsigned(b)) => *a >= 0 && *a as u64 == *b,
            (Json::Decimal(a), Json::Decimal(b)) => a.same(b),
            (Json::Text(a), Json::Text(b)) => *a == *b,
            (Json::Array(a), Json::Array(b)) => {
                let ghost x = self@.plain()->Array_0;
                let ghost y = other@.plain()->Array_0;
                if a.len() != b.len() {
                    assert(x.len() != y.len());
                    return false;
                }
                let mut i: usize = 0;
                while i < a.len()
                    invariant
                        i <= a@.len(),
                        a@.len() == b@.len(),
                        *self == Json::Array(*a),
                        *other == Json::Array(*b),
                        x == self@.plain()->Array_0,
                        y == other@.plain()->Array_0,
                        x.len() == a@.len(),
                        y.len() == a@.len(),
                        forall|j: int| 0 <= j < i ==> #[trigger] x[j] == y[j],
                    decreases a@.len() - i,
                {
                    assert(decreases_to!(*self => self->Array_0@[i as int]));
                    assert(x[i as int] == a@[i as int]@.plain());
                    assert(y[i as int] == b@[i as int]@.plain());
                    if !a[i].same(&b[i]) {
                        return false;
                    }
                    i += 1;
                }
                assert(x =~= y);
                true
            },
            (Json::Object(a), Json::Object(b)) => {
                let ghost x = entries_model(a@);
                let ghost y = entries_model(b@);
                let ghost p = self@.plain()->Object_0;
                let ghost q = other@.plain()->Object_0;
                let mut i: usize = 0;
                while i < a.len()
                    invariant
                        i <= a@.len(),
                        *self == Json::Object(*a),
                        *other == Json::Object(*b),
                        x == entries_model(a@),
                        y == entries_model(b@),
                        p == self@.plain()->Object_0,
                        q == other@.plain()->Object_0,
                        forall|j: int|
                            0 <= j < i ==> {
                                let k = (#[trigger] a@[j]).0@;
                                x.contains_key(k) && y.contains_key(k) && x[k].plain()
                                    == y[k].plain()
                            },
                    decreases a@.len() - i,
                {
                    let key: &str = a[i].0.as_str();
                    match (find(a, key), find(b, key)) {
                        (Some(m), Some(n)) => {
                            assert(decreases_to!(*self => self->Object_0@[m as int].1));
                            if !a[m].1.same(&b[n].1) {
                                assert(p[key@] != q[key@]);
                                return false;
                            }
                        },
                        (m, _) => {
                            proof {
                                lemma_has_entry(a@, i as int);
                            }
                            assert(p.contains_key(key@) && !q.contains_key(key@));
                            return false;
                        },
                    }
                    i += 1;
                }
                let mut i: usize = 0;
                while i < b.len()
                    invariant
                        i <= b@.len(),
                        *self == Json::Object(*a),
                        *other == Json::Object(*b),
                        x == entries_model(a@),
                        y == entries_model(b@),
                        p == self@.plain()->Object_0,
                        q == other@.plain()->Object_0,
                        forall|j: int|
                            0 <= j < a@.len() ==> {
                                let k = (#[trigger] a@[j]).0@;
                                x.contains_key(k) && y.contains_key(k) && x[k].plain()
                                    == y[k].plain()
                            },
                        forall|j: int| 0 <= j < i ==> x.contains_key((#[trigger] b@[j]).0@),
                    decreases b@.len() - i,
                {
                    if find(a, b[i].0.as_str()).is_none() {
                        proof {
                            lemma_has_entry(b@, i as int);
                        }
                        assert(q.contains_key(b@[i as int].0@) && !p.contains_key(b@[i as int].0@));
                        return false;
                    }
                    i += 1;
                }
                proof {
                    assert forall|k: Text| #[trigger] x.dom().contains(k) implies y.dom().contains(k)
                        && x[k].plain() == y[k].plain() by {
                        lemma_key_has_entry(a@, k);
                    }
                    assert forall|k: Text| #[trigger] y.dom().contains(k) implies x.dom().contains(
                        k,
                    ) by {
                        lemma_key_has_entry(b@, k);
                    }
                    assert(p =~= q);
                }
                true
            },
            _ => false,
        }
    }
}

proof fn lemma_has_entry(entries: Seq<(String, Json)>, i: int)
    requires
        0 <= i < entries.len(),
    ensures
        entries_model(entries).contains_key(entries[i].0@),
    decreases entries.len(),
{
    if i < entries.len() - 1 {
        lemma_has_entry(entries.drop_last(), i);
    }
}

proof fn lemma_key_has_entry(entries: Seq<(String, Json)>, key: Text)
    requires
        entries_model(entries).contains_key(key),
    ensures
        exists|i: int| 0 <= i < entries.len() && (#[trigger] entries[i]).0@ == key,
    decreases entries.len(),
{
    if entries.last().0@ != key {
        lemma_key_has_entry(entries.drop_last(), key);
        let i = choose|i: int|
            0 <= i < entries.drop_last().len() && (#[trigger] entries.drop_last()[i]).0@ == key;
        assert(entries[i].0@ == key);
    } else {
        assert(entries[entries.len() - 1].0@ == key);
    }
}

/// A JSON value as the parser and the printer of `serde_json` hold it.
#[verifier::external_type_specification]
#[verifier::external_body]
pub struct ExValue(serde_json::Value);

/// What a `serde_json::Value` holds.
pub uninterp spec fn value_contents(value: serde_json::Value) -> JsonModel;

/// What an optional `serde_json::Value` holds.
pub open spec fn option_contents(value: Option<serde_json::Value>) -> Option<JsonModel> {
    match value {
        Some(v) => Some(value_contents(v)),
        None => None,
    }
}

/// The value that a JSON text writes, if it is one that `serde_json` accepts.
pub uninterp spec fn parsed(text: Text) -> Option<JsonModel>;

/// The compact text that `serde_json` prints for a value.
pub uninterp spec fn printed(value: JsonModel) -> Text;

/// `serde_json::from_str`: the result is a function of the text. The two truth
/// values and the numerals of 64-bit numbers are read as what they write.
#[verifier::external_body]
fn read_value(s: &str) -> (r: Option<serde_json::Value>)
    ensures
        option_contents(r) == parsed(s@),
        s@ == "true"@ ==> option_contents(r) == Some(JsonModel::Bool(true)),
        s@ == "false"@ ==> option_contents(r) == Some(JsonModel::Bool(false)),
        forall|n: u64|
            s@ == #[trigger] text::decimal(n as nat) ==> option_contents(r) == Some(
                JsonModel::Unsigned(n),
            ),
{
    serde_json::from_str(s).ok()
}

/// `<serde_json::Value as Display>::to_string`: the text is a function of what the value holds.
#[verifier::external_body]
fn print_value(value: &serde_json::Value) -> (r: String)
    ensures
        r@ == printed(value_contents(*value)),
{
    value.to_string()
}

/// What `serde_json::to_string_pretty` makes of a value: its JSON text, indented.
pub uninterp spec fn prettied(value: JsonModel) -> Text;

/// `serde_json::to_string_pretty` on a `serde_json::Value`, whose serialization has no way to
/// fail: the text is a function of what the value holds.
#[verifier::external_body]
fn pretty_value(value: &serde_json::Value) -> (r: String)
    ensures
        r@ == prettied(value_contents(*value)),
{
    serde_json::to_string_pretty(value).unwrap_or_default()
}

/// The same value in the library's own type, variant by variant.
#[verifier::external_body]
fn unpack(value: serde_json::Value) -> (r: Json)
    ensures
        r@ == value_contents(value),
{
    match value {
        serde_json::Value::Null => Json::Null,
        serde_json::Value::Bool(b) => Json::Bool(b),
        serde_json::Value::Number(n) => match (n.as_u64(), n.as_i64()) {
            (Some(u), _) => Json::Unsigned(u),
            (_, Some(i)) => Json::Negative(i),
            _ => Json::Decimal(Decimal { numeral: n.to_string() }),
        },
        serde_json::Value::String(s) => Json::Text(s),
        serde_json::Value::Array(items) => Json::Array(items.into_iter().map(unpack).collect()),
        serde_json::Value::Object(map) => Json::Object(map.into_iter().map(|(k, v)| (k, unpack(v))).collect()),
    }
}

/// The same value in the type of `serde_json`, variant by variant. A numeral is read back by
/// std as the number that it was printed for.
#[verifier::external_body]
fn pack(json: &Json) -> (r: serde_json::Value)
    ensures
        value_contents(r) == json@,
{
    match json {
        Json::Null => serde_json::Value::Null,
        Json::Bool(b) => serde_json::Value::from(*b),
        Json::Unsigned(n) => serde_json::Value::from(*n),
        Json::Negative(n) => serde_json::Value::from(*n),
        Json::Decimal(n) => n.numeral.parse().ok().and_then(serde_json::Number::from_f64).into(),
        Json::Text(s) => serde_json::Value::from(s.as_str()),
        Json::Array(items) => items.iter().map(pack).collect(),
        Json::Object(entries) => entries.iter().map(|(k, v)| (k.clone(), pack(v))).collect(),
    }
}

impl Json {
    /// Reads a JSON text.
    pub fn parse(s: &str) -> (r: Option<Json>)
        ensures
            r.deep_view() == parsed(s@),
            s@ == "true"@ ==> r.deep_view() == Some(JsonModel::Bool(true)),
            s@ == "false"@ ==> r.deep_view() == Some(JsonModel::Bool(false)),
            forall|n: u64|
                s@ == #[trigger] text::decimal(n as nat) ==> r.deep_view() == Some(
                    JsonModel::Unsigned(n),
                ),
    {
        match read_value(s) {
            Some(value) => Some(unpack(value)),
            None => None,
        }
    }

    /// The compact JSON text of the value.
    pub fn to_text(&self) -> (r: String)
        ensures
            r@ == printed(self@),
    {
        print_value(&pack(self))
    }

    /// The indented JSON text of the value.
    pub fn to_pretty_text(&self) -> (r: String)
        ensures
            r@ == prettied(self@),
    {
        pretty_value(&pack(self))
    }
}

/// The keys of an object are those of its entries.
pub proof fn keys_are_entries(entries: Seq<(String, Json)>)
    ensures
        forall|i: int|
            0 <= i < entries.len() ==> entries_model(entries).contains_key(
                (#[trigger] entries[i]).0@,
            ),
        forall|key: Text| #[trigger]
            entries_model(entries).contains_key(key) ==> exists|i: int|
                0 <= i < entries.len() && (#[trigger] entries[i]).0@ == key,
{
    assert forall|i: int| 0 <= i < entries.len() implies entries_model(entries).contains_key(
        (#[trigger] entries[i]).0@,
    ) by {
        lemma_has_entry(entries, i);
    }
    assert forall|key: Text| #[trigger] entries_model(entries).contains_key(key) implies exists|
        i: int,
    |
        0 <= i < entries.len() && (#[trigger] entries[i]).0@ == key by {
        lemma_key_has_entry(entries, key);
    }
}

/// Without an entry only its key can change.
proof fn lemma_remove_entry(entries: Seq<(String, Json)>, i: int, v: JsonModel)
    requires
        0 <= i < entries.len(),
    ensures
        entries_model(entries.remove(i)).insert(entries[i].0@, v) == entries_model(entries).insert(
            entries[i].0@,
            v,
        ),
    decreases entries.len(),
{
    let key = entries[i].0@;
    let init = entries.drop_last();
    if i == entries.len() - 1 {
        assert(entries.remove(i) =~= init);
        assert(entries_model(entries).insert(key, v) =~= entries_model(init).insert(key, v));
    } else {
        lemma_remove_entry(init, i, v);
        let gone = entries.remove(i);
        assert(gone.drop_last() =~= init.remove(i));
        assert(gone.last() == entries.last());
        let (k, x) = (entries.last().0@, model(entries.last().1));
        let (m, n) = (entries_model(init.remove(i)), entries_model(init));
        let (p, q) = (m.insert(k, x).insert(key, v), n.insert(k, x).insert(key, v));
        assert forall|t: Text| #[trigger] p.contains_key(t) == q.contains_key(t) && (p.contains_key(t)
            ==> p[t] == q[t]) by {
            let (c, d) = (m.insert(key, v), n.insert(key, v));
            assert(c == d);
            assert(c.contains_key(t) == d.contains_key(t) && c[t] == d[t]);
        }
        assert(p =~= q);
    }
}

/// What is set is read back, other members stay as they are, and nothing else is added.
pub proof fn members_are_read_back(
    object: JsonModel,
    key: Text,
    value: JsonModel,
    other: Text,
)
    requires
        object is Object,
        other != key,
    ensures
        object.with(key, value).has(key),
        object.with(key, value).at(key) == value,
        object.with(key, value).has(other) == object.has(other),
        object.with(key, value).at(other) == object.at(other),
        !JsonModel::empty().has(key),
        object.at(key) != JsonModel::Null ==> object.has(key),
{
}

/// Values are compared by what they hold: of two decimals only the zeros are the same under
/// different numerals, arrays are compared item by item and objects member by member, and values
/// of different kinds are never the same.
pub proof fn values_are_compared_by_what_they_hold(a: JsonModel, b: JsonModel)
    ensures
        match (a, b) {
            (JsonModel::Decimal(x), JsonModel::Decimal(y)) => a.plain() == b.plain() <==> x == y || {
                &&& x == "0.0"@ || x == "-0.0"@
                &&& y == "0.0"@ || y == "-0.0"@
            },
            (JsonModel::Array(x), JsonModel::Array(y)) => a.plain() == b.plain() <==> x.len()
                == y.len() && forall|i: int|
                0 <= i < x.len() ==> (#[trigger] x[i]).plain() == y[i].plain(),
            (JsonModel::Object(x), JsonModel::Object(y)) => a.plain() == b.plain() <==> forall|
                key: Text,
            | #[trigger]
                x.contains_key(key) == y.contains_key(key) && (x.contains_key(key) ==> x[key].plain()
                    == y[key].plain()),
            (JsonModel::Decimal(_), _) => a.plain() != b.plain(),
            (JsonModel::Array(_), _) => a.plain() != b.plain(),
            (JsonModel::Object(_), _) => a.plain() != b.plain(),
            (_, JsonModel::Decimal(_)) => a.plain() != b.plain(),
            (_, JsonModel::Array(_)) => a.plain() != b.plain(),
            (_, JsonModel::Object(_)) => a.plain() != b.plain(),
            _ => a.plain() == b.plain() <==> a == b,
        },
{
    match (a, b) {
        (JsonModel::Array(x), JsonModel::Array(y)) => {
            let (p, q) = (a.plain()->Array_0, b.plain()->Array_0);
            assert(p.len() == x.len() && q.len() == y.len());
            assert forall|i: int| 0 <= i < x.len() implies #[trigger] p[i] == x[i].plain() by {}
            assert forall|i: int| 0 <= i < y.len() implies #[trigger] q[i] == y[i].plain() by {}
            if a.plain() == b.plain() {
                assert forall|i: int| 0 <= i < x.len() implies (#[trigger] x[i]).plain()
                    == y[i].plain() by {
                    assert(p.len() == q.len());
                    assert(p[i] == q[i]);
                }
            } else if x.len() == y.len() && forall|i: int|
                0 <= i < x.len() ==> (#[trigger] x[i]).plain() == y[i].plain() {
                assert(p =~= q) by {
                    assert forall|i: int| 0 <= i < p.len() implies p[i] == q[i] by {
                        assert(x[i].plain() == y[i].plain());
                    }
                }
            }
        },
        (JsonModel::Object(x), JsonModel::Object(y)) => {
            let (p, q) = (a.plain()->Object_0, b.plain()->Object_0);
            if a.plain() == b.plain() {
                assert forall|key: Text| #[trigger]
                    x.contains_key(key) == y.contains_key(key) && (x.contains_key(key)
                        ==> x[key].plain() == y[key].plain()) by {
                    assert(p.contains_key(key) == q.contains_key(key));
                    assert(x.contains_key(key) == p.contains_key(key));
                    assert(y.contains_key(key) == q.contains_key(key));
                    if x.contains_key(key) {
                        assert(p[key] == q[key]);
                    }
                }
            } else if forall|key: Text| #[trigger]
                x.contains_key(key) == y.contains_key(key) && (x.contains_key(key)
                    ==> x[key].plain() == y[key].plain()) {
                assert(p =~= q) by {
                    assert forall|key: Text| #[trigger]
                        p.dom().contains(key) == q.dom().contains(key) && (p.dom().contains(key)
                            ==> p[key] == q[key]) by {
                        assert(x.contains_key(key) == y.contains_key(key));
                    }
                }
            }
        },
        _ => {},
    }
}

} // verus!
