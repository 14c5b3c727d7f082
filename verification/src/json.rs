//! A JSON value model: the data that nodes exchange through shared state.

use vstd::prelude::*;

verus! {

/// A JSON number, kept without loss: non-negative integers, negative
/// integers, and floating-point numbers by their IEEE-754 bit pattern.
#[derive(Clone, Copy, Debug, Eq)]
pub enum JsonNumber {
    PosInt(u64),
    NegInt(i64),
    Float(u64),
}

/// A JSON value.
#[derive(Debug, Eq)]
pub enum JsonValue {
    Null,
    Bool(bool),
    Number(JsonNumber),
    String(String),
    Array(Vec<JsonValue>),
    Object(Vec<(String, JsonValue)>),
}

/// The mathematical model of a JSON value: strings by their characters.
pub enum JsonModel {
    Null,
    Bool(bool),
    Number(JsonNumber),
    Str(Seq<char>),
    Array(Seq<JsonModel>),
    Object(Seq<(Seq<char>, JsonModel)>),
}

pub open spec fn model_of(v: JsonValue) -> JsonModel
    decreases v,
{
    match v {
        JsonValue::Null => JsonModel::Null,
        JsonValue::Bool(b) => JsonModel::Bool(b),
        JsonValue::Number(n) => JsonModel::Number(n),
        JsonValue::String(s) => JsonModel::Str(s@),
        JsonValue::Array(a) => JsonModel::Array(models_of(a@)),
        JsonValue::Object(o) => JsonModel::Object(entry_models_of(o@)),
    }
}

pub open spec fn models_of(s: Seq<JsonValue>) -> Seq<JsonModel>
    decreases s,
{
    if s.len() == 0 {
        Seq::empty()
    } else {
        models_of(s.drop_last()).push(model_of(s.last()))
    }
}

pub open spec fn entry_models_of(s: Seq<(String, JsonValue)>) -> Seq<(Seq<char>, JsonModel)>
    decreases s,
{
    if s.len() == 0 {
        Seq::empty()
    } else {
        entry_models_of(s.drop_last()).push((s.last().0@, model_of(s.last().1)))
    }
}

pub proof fn lemma_models_of(s: Seq<JsonValue>)
    ensures
        models_of(s).len() == s.len(),
        forall|i: int| 0 <= i < s.len() ==> #[trigger] models_of(s)[i] == model_of(s[i]),
    decreases s.len(),
{
    if s.len() > 0 {
        lemma_models_of(s.drop_last());
    }
}

pub proof fn lemma_entry_models_of(s: Seq<(String, JsonValue)>)
    ensures
        entry_models_of(s).len() == s.len(),
        forall|i: int|
            0 <= i < s.len() ==> #[trigger] entry_models_of(s)[i] == (s[i].0@, model_of(s[i].1)),
    decreases s.len(),
{
    if s.len() > 0 {
        lemma_entry_models_of(s.drop_last());
    }
}

impl View for JsonValue {
    type V = JsonModel;

    open spec fn view(&self) -> JsonModel {
        model_of(*self)
    }
}

/// The value stored under `key` in an object's entries: the first entry
/// with that key.
pub open spec fn entries_get(s: Seq<(String, JsonValue)>, key: Seq<char>) -> Option<JsonValue>
    decreases s.len(),
{
    if s.len() == 0 {
        None
    } else if s[0].0@ == key {
        Some(s[0].1)
    } else {
        entries_get(s.drop_first(), key)
    }
}

/// The member `key` of a value, if it is an object that has one.
pub open spec fn json_get(v: JsonValue, key: Seq<char>) -> Option<JsonValue> {
    match v {
        JsonValue::Object(o) => entries_get(o@, key),
        _ => None,
    }
}

/// The characters of a value, if it is a string.
pub open spec fn json_str(v: JsonValue) -> Option<Seq<char>> {
    match v {
        JsonValue::String(s) => Some(s@),
        _ => None,
    }
}

/// The characters of the string stored under `key`, if there is one.
pub open spec fn json_get_str(v: JsonValue, key: Seq<char>) -> Option<Seq<char>> {
    match json_get(v, key) {
        Some(m) => json_str(m),
        None => None,
    }
}

/// The member `key` among an object model's entries: the first entry with
/// that key.
pub open spec fn model_entries_get(s: Seq<(Seq<char>, JsonModel)>, key: Seq<char>) -> Option<
    JsonModel,
>
    decreases s.len(),
{
    if s.len() == 0 {
        None
    } else if s[0].0 == key {
        Some(s[0].1)
    } else {
        model_entries_get(s.drop_first(), key)
    }
}

/// The member `key` of a model, if it is an object that has one.
pub open spec fn model_get(m: JsonModel, key: Seq<char>) -> Option<JsonModel> {
    match m {
        JsonModel::Object(o) => model_entries_get(o, key),
        _ => None,
    }
}

/// The characters of a model, if it is a string.
pub open spec fn model_str(m: JsonModel) -> Option<Seq<char>> {
    match m {
        JsonModel::Str(s) => Some(s),
        _ => None,
    }
}

/// The characters of the string member `key` of a model.
pub open spec fn model_get_str(m: JsonModel, key: Seq<char>) -> Option<Seq<char>> {
    match model_get(m, key) {
        Some(x) => model_str(x),
        None => None,
    }
}

pub proof fn lemma_entries_get_model(s: Seq<(String, JsonValue)>, key: Seq<char>)
    ensures
        model_entries_get(entry_models_of(s), key) == (match entries_get(s, key) {
            Some(v) => Some(model_of(v)),
            None => None,
        }),
    decreases s.len(),
{
    lemma_entry_models_of(s);
    if s.len() > 0 {
        lemma_entry_models_of(s.drop_first());
        assert(entry_models_of(s).drop_first() =~= entry_models_of(s.drop_first()));
        lemma_entries_get_model(s.drop_first(), key);
    }
}

pub proof fn lemma_get_model(v: JsonValue, key: Seq<char>)
    ensures
        model_get(v@, key) == (match json_get(v, key) {
            Some(x) => Some(x@),
            None => None,
        }),
{
    if let JsonValue::Object(o) = v {
        lemma_entries_get_model(o@, key);
    }
}

/// Whether a float's bit pattern is a zero, of either sign.
pub open spec fn is_zero_bits(b: u64) -> bool {
    b == 0 || b == 0x8000_0000_0000_0000u64
}

/// Whether two numbers are equal: integers by value, floats as IEEE-754
/// numbers (the two zeros are equal), and an integer never equals a float.
pub open spec fn numbers_equal(a: JsonNumber, b: JsonNumber) -> bool {
    match (a, b) {
        (JsonNumber::PosInt(x), JsonNumber::PosInt(y)) => x == y,
        (JsonNumber::NegInt(x), JsonNumber::NegInt(y)) => x == y,
        (JsonNumber::Float(x), JsonNumber::Float(y)) => x == y || (is_zero_bits(x) && is_zero_bits(y)),
        _ => false,
    }
}

/// Whether two JSON values are equal: arrays element by element, objects
/// as maps (the same keys, each with equal values, whatever the order of the
/// members; of two members with one key the first counts), and the rest by
/// value.
pub open spec fn json_equal(a: JsonModel, b: JsonModel) -> bool
    decreases a, 0nat,
{
    match a {
        JsonModel::Null => b is Null,
        JsonModel::Bool(x) => b matches JsonModel::Bool(y) && x == y,
        JsonModel::Number(x) => b matches JsonModel::Number(y) && numbers_equal(x, y),
        JsonModel::Str(x) => b matches JsonModel::Str(y) && x == y,
        JsonModel::Array(xs) => match b {
            JsonModel::Array(ys) => xs.len() == ys.len() && items_equal(xs, ys, xs.len()),
            _ => false,
        },
        JsonModel::Object(ea) => match b {
            JsonModel::Object(eb) => members_match(ea, eb, ea.len()) && keys_within(eb, ea),
            _ => false,
        },
    }
}

/// Whether the first `n` elements of `xs` equal those of `ys`.
pub open spec fn items_equal(xs: Seq<JsonModel>, ys: Seq<JsonModel>, n: nat) -> bool
    decreases xs, n,
{
    if n == 0 || n > xs.len() || n > ys.len() {
        n == 0
    } else {
        items_equal(xs, ys, (n - 1) as nat) && json_equal(xs[n - 1], ys[n - 1])
    }
}

/// Whether each key among the first `n` members of `ea`, at its first
/// occurrence, is a key of `eb` whose value there equals its value here.
pub open spec fn members_match(
    ea: Seq<(Seq<char>, JsonModel)>,
    eb: Seq<(Seq<char>, JsonModel)>,
    n: nat,
) -> bool
    decreases ea, n,
{
    if n == 0 || n > ea.len() {
        n == 0
    } else {
        members_match(ea, eb, (n - 1) as nat) && (model_entries_get(ea.take(n - 1), ea[n - 1].0) is Some
            || match model_entries_get(eb, ea[n - 1].0) {
            Some(w) => json_equal(ea[n - 1].1, w),
            None => false,
        })
    }
}

/// Whether every key of `eb` is a key of `ea`.
pub open spec fn keys_within(eb: Seq<(Seq<char>, JsonModel)>, ea: Seq<(Seq<char>, JsonModel)>) -> bool {
    forall|j: int| 0 <= j < eb.len() ==> (#[trigger] model_entries_get(ea, eb[j].0)) is Some
}

/// Whether two texts are the same, character for character.
pub fn text_eq(a: &str, b: &str) -> (r: bool)
    ensures
        r == (a@ == b@),
{
    let x = a.to_owned();
    let y = b.to_owned();
    x == y
}

impl JsonValue {
    /// A string value holding `s`.
    pub fn from_text(s: &str) -> (r: JsonValue)
        ensures
            r@ == JsonModel::Str(s@),
    {
        JsonValue::String(s.to_owned())
    }

    /// An object value with a single member.
    pub fn single(key: &str, value: JsonValue) -> (r: JsonValue)
        ensures
            r matches JsonValue::Object(o) && o@.len() == 1 && o@[0].0@ == key@ && o@[0].1 == value,
            json_get(r, key@) == Some(value),
    {
        let mut o: Vec<(String, JsonValue)> = Vec::new();
        o.push((key.to_owned(), value));
        let r = JsonValue::Object(o);
        proof {
            assert(entries_get(o@, key@) == Some(value));
        }
        r
    }

    /// Whether the value is `null`.
    pub fn is_null(&self) -> (r: bool)
        ensures
            r == (*self is Null),
    {
        match self {
            JsonValue::Null => true,
            _ => false,
        }
    }

    /// The text of a string value.
    pub fn as_str(&self) -> (r: Option<&str>)
        ensures
            r.is_some() == (*self is String),
            r matches Some(t) ==> json_str(*self) == Some(t@),
            r.is_some() == model_str(self@).is_some(),
            r matches Some(t) ==> model_str(self@) == Some(t@),
    {
        match self {
            JsonValue::String(s) => Some(s.as_str()),
            _ => None,
        }
    }

    /// The value of a non-negative integer.
    pub fn as_u64(&self) -> (r: Option<u64>)
        ensures
            r == (match *self {
                JsonValue::Number(JsonNumber::PosInt(n)) => Some(n),
                _ => None,
            }),
    {
        match self {
            JsonValue::Number(JsonNumber::PosInt(n)) => Some(*n),
            _ => None,
        }
    }

    /// The elements of an array value.
    pub fn as_array(&self) -> (r: Option<&Vec<JsonValue>>)
        ensures
            r.is_some() == (*self is Array),
            r matches Some(a) ==> *self == JsonValue::Array(*a),
    {
        match self {
            JsonValue::Array(a) => Some(a),
            _ => None,
        }
    }

    /// Whether the value is an object.
    pub fn is_object(&self) -> (r: bool)
        ensures
            r == (*self is Object),
    {
        match self {
            JsonValue::Object(_) => true,
            _ => false,
        }
    }

    /// The member `key` of an object value.
    pub fn get(&self, key: &str) -> (r: Option<&JsonValue>)
        ensures
            r.is_some() == json_get(*self, key@).is_some(),
            r matches Some(x) ==> json_get(*self, key@) == Some(*x),
            r.is_some() == model_get(self@, key@).is_some(),
            r matches Some(x) ==> model_get(self@, key@) == Some(x@),
    {
        proof {
            lemma_get_model(*self, key@);
        }
        match self {
            JsonValue::Object(o) => {
                let mut i: usize = 0;
                assert(o@.skip(0) =~= o@);
                while i < o.len()
                    invariant
                        *self == JsonValue::Object(*o),
                        i <= o.len(),
                        entries_get(o@, key@) == entries_get(o@.skip(i as int), key@),
                    decreases o.len() - i,
                {
                    assert(o@.skip(i as int).drop_first() =~= o@.skip(i + 1));
                    assert(o@.skip(i as int)[0] == o@[i as int]);
                    if text_eq(o[i].0.as_str(), key) {
                        proof {
                            lemma_get_model(*self, key@);
                        }
                        return Some(&o[i].1);
                    }
                    i = i + 1;
                }
                None
            },
            _ => None,
        }
    }

    /// The text of the string member `key`, if there is one.
    pub fn get_str(&self, key: &str) -> (r: Option<&str>)
        ensures
            r.is_some() == json_get_str(*self, key@).is_some(),
            r matches Some(t) ==> json_get_str(*self, key@) == Some(t@),
            r.is_some() == model_get_str(self@, key@).is_some(),
            r matches Some(t) ==> model_get_str(self@, key@) == Some(t@),
    {
        match self.get(key) {
            Some(v) => v.as_str(),
            None => None,
        }
    }

    /// A copy of the value with the same model.
    pub fn deep_clone(&self) -> (r: JsonValue)
        ensures
            r@ == self@,
        decreases self,
    {
        match self {
            JsonValue::Null => JsonValue::Null,
            JsonValue::Bool(b) => JsonValue::Bool(*b),
            JsonValue::Number(n) => JsonValue::Number(*n),
            JsonValue::String(s) => JsonValue::String(s.clone()),
            JsonValue::Array(a) => {
                let mut out: Vec<JsonValue> = Vec::new();
                let mut i: usize = 0;
                while i < a.len()
                    invariant
                        *self == JsonValue::Array(*a),
                        i <= a.len(),
                        out@.len() == i,
                        forall|j: int| 0 <= j < i ==> (#[trigger] out@[j])@ == a@[j]@,
                    decreases a.len() - i,
                {
                    proof {
                        broadcast use vstd::std_specs::vec::axiom_vec_index_decreases;
                        assert(decreases_to!(*a => a[i as int]));
                        assert(decreases_to!(*self => (*self)->Array_0));
                        assert(decreases_to!(*self => a[i as int]));
                    }
                    let c = a[i].deep_clone();
                    out.push(c);
                    i = i + 1;
                }
                proof {
                    lemma_models_of(out@);
                    lemma_models_of(a@);
                    assert(models_of(out@) =~= models_of(a@));
                }
                JsonValue::Array(out)
            },
            JsonValue::Object(o) => {
                let mut out: Vec<(String, JsonValue)> = Vec::new();
                let mut i: usize = 0;
                while i < o.len()
                    invariant
                        *self == JsonValue::Object(*o),
                        i <= o.len(),
                        out@.len() == i,
                        forall|j: int|
                            0 <= j < i ==> (#[trigger] out@[j]).0@ == o@[j].0@ && out@[j].1@
                                == o@[j].1@,
                    decreases o.len() - i,
                {
                    proof {
                        broadcast use vstd::std_specs::vec::axiom_vec_index_decreases;
                        assert(decreases_to!(*o => o[i as int]));
                        assert(decreases_to!(o[i as int] => o[i as int].1));
                        assert(decreases_to!(*self => (*self)->Object_0));
                        assert(decreases_to!(*self => o[i as int].1));
                    }
                    let k = o[i].0.clone();
                    let c = o[i].1.deep_clone();
                    out.push((k, c));
                    i = i + 1;
                }
                proof {
                    lemma_entry_models_of(out@);
                    lemma_entry_models_of(o@);
                    assert(entry_models_of(out@) =~= entry_models_of(o@));
                }
                JsonValue::Object(out)
            },
        }
    }
}

impl Clone for JsonValue {
    fn clone(&self) -> (r: JsonValue)
        ensures
            r@ == self@,
    {
        self.deep_clone()
    }
}

/// A member of an object model's entries is found exactly when some entry
/// has its key.
pub proof fn lemma_model_entries_get_some(s: Seq<(Seq<char>, JsonModel)>, key: Seq<char>)
    ensures
        model_entries_get(s, key) is Some <==> exists|j: int| 0 <= j < s.len() && s[j].0 == key,
    decreases s.len(),
{
    if s.len() > 0 {
        lemma_model_entries_get_some(s.drop_first(), key);
        if model_entries_get(s, key) is Some && s[0].0 != key {
            let j = choose|j: int| 0 <= j < s.drop_first().len() && s.drop_first()[j].0 == key;
            assert(s[j + 1].0 == key);
        }
        if exists|j: int| 0 <= j < s.len() && s[j].0 == key {
            let j = choose|j: int| 0 <= j < s.len() && s[j].0 == key;
            if j > 0 {
                assert(s.drop_first()[j - 1].0 == key);
            }
        }
    }
}

/// In an object whose keys are distinct, each key's member is the value
/// listed with it.
pub proof fn lemma_object_members(s: Seq<(Seq<char>, JsonModel)>)
    requires
        forall|a: int, b: int| 0 <= a < b < s.len() ==> s[a].0 != s[b].0,
    ensures
        forall|i: int| 0 <= i < s.len() ==> #[trigger] model_get(JsonModel::Object(s), s[i].0) == Some(s[i].1),
{
    assert forall|i: int| 0 <= i < s.len() implies #[trigger] model_get(JsonModel::Object(s), s[i].0) == Some(
        s[i].1,
    ) by {
        lemma_object_member(s, i);
    }
}

proof fn lemma_object_member(s: Seq<(Seq<char>, JsonModel)>, i: int)
    requires
        0 <= i < s.len(),
        forall|a: int, b: int| 0 <= a < b < s.len() ==> s[a].0 != s[b].0,
    ensures
        model_entries_get(s, s[i].0) == Some(s[i].1),
    decreases i,
{
    if i > 0 {
        let t = s.drop_first();
        assert(t[i - 1] == s[i]);
        lemma_object_member(t, i - 1);
    }
}

/// Whether two numbers are equal.
fn numbers_eq(a: &JsonNumber, b: &JsonNumber) -> (r: bool)
    ensures
        r == numbers_equal(*a, *b),
{
    match (a, b) {
        (JsonNumber::PosInt(x), JsonNumber::PosInt(y)) => *x == *y,
        (JsonNumber::NegInt(x), JsonNumber::NegInt(y)) => *x == *y,
        (JsonNumber::Float(x), JsonNumber::Float(y)) => *x == *y || ((*x == 0 || *x
            == 0x8000_0000_0000_0000u64) && (*y == 0 || *y == 0x8000_0000_0000_0000u64)),
        _ => false,
    }
}

/// Whether a key occurs among the first `n` members of an object.
fn key_before(o: &Vec<(String, JsonValue)>, n: usize, key: &str) -> (r: bool)
    requires
        n <= o@.len(),
    ensures
        r == (model_entries_get(entry_models_of(o@).take(n as int), key@) is Some),
{
    proof {
        lemma_entry_models_of(o@);
        lemma_model_entries_get_some(entry_models_of(o@).take(n as int), key@);
    }
    let mut j: usize = 0;
    while j < n
        invariant
            n <= o@.len(),
            j <= n,
            forall|i: int| 0 <= i < j ==> o@[i].0@ != key@,
        decreases n - j,
    {
        if text_eq(o[j].0.as_str(), key) {
            proof {
                lemma_entry_models_of(o@);
                lemma_model_entries_get_some(entry_models_of(o@).take(n as int), key@);
                assert(entry_models_of(o@)[j as int] == (o@[j as int].0@, model_of(o@[j as int].1)));
                assert(entry_models_of(o@).take(n as int)[j as int].0 == key@);
            }
            return true;
        }
        j = j + 1;
    }
    proof {
        assert forall|i: int| 0 <= i < n implies entry_models_of(o@).take(n as int)[i].0 != key@ by {
            assert(entry_models_of(o@)[i] == (o@[i].0@, model_of(o@[i].1)));
        }
    }
    false
}

/// Whether two values are equal, as `json_equal` says.
fn json_eq(a: &JsonValue, b: &JsonValue) -> (r: bool)
    ensures
        r == json_equal(a@, b@),
    decreases a,
{
    match a {
        JsonValue::Null => b.is_null(),
        JsonValue::Bool(x) => match b {
            JsonValue::Bool(y) => *x == *y,
            _ => false,
        },
        JsonValue::Number(x) => match b {
            JsonValue::Number(y) => numbers_eq(x, y),
            _ => false,
        },
        JsonValue::String(x) => match b {
            JsonValue::String(y) => text_eq(x.as_str(), y.as_str()),
            _ => false,
        },
        JsonValue::Array(xs) => match b {
            JsonValue::Array(ys) => {
                proof {
                    lemma_models_of(xs@);
                    lemma_models_of(ys@);
                }
                if xs.len() != ys.len() {
                    return false;
                }
                let ghost mx = models_of(xs@);
                let ghost my = models_of(ys@);
                let mut all = true;
                let mut i: usize = 0;
                while i < xs.len()
                    invariant
                        *a == JsonValue::Array(*xs),
                        xs@.len() == ys@.len(),
                        mx == models_of(xs@),
                        my == models_of(ys@),
                        mx.len() == xs@.len(),
                        my.len() == ys@.len(),
                        forall|j: int| 0 <= j < xs@.len() ==> #[trigger] mx[j] == xs@[j]@,
                        forall|j: int| 0 <= j < ys@.len() ==> #[trigger] my[j] == ys@[j]@,
                        i <= xs@.len(),
                        all == items_equal(mx, my, i as nat),
                    decreases xs@.len() - i,
                {
                    proof {
                        broadcast use vstd::std_specs::vec::axiom_vec_index_decreases;
                        assert(decreases_to!(*xs => xs[i as int]));
                        assert(decreases_to!(*a => (*a)->Array_0));
                        assert(decreases_to!(*a => xs[i as int]));
                    }
                    let e = json_eq(&xs[i], &ys[i]);
                    all = all && e;
                    i = i + 1;
                }
                all
            },
            _ => false,
        },
        JsonValue::Object(oa) => match b {
            JsonValue::Object(ob) => {
                proof {
                    lemma_entry_models_of(oa@);
                    lemma_entry_models_of(ob@);
                }
                let ghost ea = entry_models_of(oa@);
                let ghost eb = entry_models_of(ob@);
                let mut all = true;
                let mut i: usize = 0;
                while i < oa.len()
                    invariant
                        *a == JsonValue::Object(*oa),
                        *b == JsonValue::Object(*ob),
                        ea == entry_models_of(oa@),
                        eb == entry_models_of(ob@),
                        ea.len() == oa@.len(),
                        forall|j: int|
                            0 <= j < oa@.len() ==> #[trigger] ea[j] == (oa@[j].0@, model_of(oa@[j].1)),
                        i <= oa@.len(),
                        all == members_match(ea, eb, i as nat),
                    decreases oa@.len() - i,
                {
                    let key = oa[i].0.as_str();
                    let ok = if key_before(oa, i, key) {
                        true
                    } else {
                        match b.get(key) {
                            Some(w) => {
                                proof {
                                    broadcast use vstd::std_specs::vec::axiom_vec_index_decreases;
                                    assert(decreases_to!(*oa => oa[i as int]));
                                    assert(decreases_to!(oa[i as int] => oa[i as int].1));
                                    assert(decreases_to!(*a => (*a)->Object_0));
                                    assert(decreases_to!(*a => oa[i as int].1));
                                }
                                json_eq(&oa[i].1, w)
                            },
                            None => false,
                        }
                    };
                    proof {
                        assert(ea[i as int].0 == key@);
                        assert(ea[i as int].1 == oa@[i as int].1@);
                    }
                    all = all && ok;
                    i = i + 1;
                }
                let mut within = true;
                let mut j: usize = 0;
                while j < ob.len()
                    invariant
                        *a == JsonValue::Object(*oa),
                        *b == JsonValue::Object(*ob),
                        ea == entry_models_of(oa@),
                        eb == entry_models_of(ob@),
                        eb.len() == ob@.len(),
                        forall|k: int|
                            0 <= k < ob@.len() ==> #[trigger] eb[k] == (ob@[k].0@, model_of(ob@[k].1)),
                        j <= ob@.len(),
                        within == (forall|k: int|
                            0 <= k < j ==> (#[trigger] model_entries_get(ea, eb[k].0)) is Some),
                    decreases ob@.len() - j,
                {
                    let found = a.get(ob[j].0.as_str()).is_some();
                    proof {
                        assert(eb[j as int].0 == ob@[j as int].0@);
                        if !found {
                            assert(!(model_entries_get(ea, eb[j as int].0) is Some));
                        }
                    }
                    within = within && found;
                    j = j + 1;
                }
                all && within
            },
            _ => false,
        },
    }
}

impl PartialEq for JsonNumber {
    fn eq(&self, other: &Self) -> (r: bool) {
        numbers_eq(self, other)
    }
}

impl vstd::std_specs::cmp::PartialEqSpecImpl for JsonNumber {
    open spec fn obeys_eq_spec() -> bool {
        true
    }

    open spec fn eq_spec(&self, other: &Self) -> bool {
        numbers_equal(*self, *other)
    }
}

impl PartialEq for JsonValue {
    fn eq(&self, other: &Self) -> (r: bool) {
        json_eq(self, other)
    }
}

impl vstd::std_specs::cmp::PartialEqSpecImpl for JsonValue {
    open spec fn obeys_eq_spec() -> bool {
        true
    }

    open spec fn eq_spec(&self, other: &Self) -> bool {
        json_equal(self@, other@)
    }
}

} // verus!
