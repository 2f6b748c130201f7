//! A plain model of structured document values, as a requirement document
//! holds them, and the functions that read them.
use crate::text::same_text;
use vstd::prelude::*;

verus! {

/// A structured value. An object keeps its members in document order.
#[derive(Debug, PartialEq, Eq)]
pub enum JsonValue {
    Null,
    Bool(bool),
    /// A number that is a whole number within `i64`.
    Int(i64),
    /// Any other number, kept as it was written.
    Real(String),
    Str(String),
    Arr(Vec<JsonValue>),
    Obj(Vec<JsonMember>),
}

/// One named member of an object.
#[derive(Debug, PartialEq, Eq)]
pub struct JsonMember {
    pub name: String,
    pub value: JsonValue,
}

/// One named parameter of a rule, as the document gives it.
#[derive(Debug, PartialEq, Eq)]
pub struct Param {
    pub name: String,
    /// The parameter's declared type, as the document words it.
    pub kind: String,
    pub value: Option<JsonValue>,
}

/// What a structured value holds.
pub enum JsonModel {
    Null,
    Bool(bool),
    Int(i64),
    Real(Seq<char>),
    Str(Seq<char>),
    Arr(Seq<JsonModel>),
    Obj(Seq<(Seq<char>, JsonModel)>),
}

/// What a parameter holds.
pub struct ParamModel {
    pub name: Seq<char>,
    pub kind: Seq<char>,
    pub value: Option<JsonModel>,
}

/// What the value `v` holds.
pub open spec fn model(v: JsonValue) -> JsonModel
    decreases v,
{
    match v {
        JsonValue::Null => JsonModel::Null,
        JsonValue::Bool(b) => JsonModel::Bool(b),
        JsonValue::Int(i) => JsonModel::Int(i),
        JsonValue::Real(s) => JsonModel::Real(s@),
        JsonValue::Str(s) => JsonModel::Str(s@),
        JsonValue::Arr(items) => JsonModel::Arr(models(items@, items@.len() as int)),
        JsonValue::Obj(members) => JsonModel::Obj(member_models(members@, members@.len() as int)),
    }
}

/// What the first `k` of `items` hold.
pub open spec fn models(items: Seq<JsonValue>, k: int) -> Seq<JsonModel>
    decreases items, k,
{
    if k <= 0 || k > items.len() {
        Seq::empty()
    } else {
        models(items, k - 1).push(model(items[k - 1]))
    }
}

/// What the first `k` of `members` hold.
pub open spec fn member_models(members: Seq<JsonMember>, k: int) -> Seq<(Seq<char>, JsonModel)>
    decreases members, k,
{
    if k <= 0 || k > members.len() {
        Seq::empty()
    } else {
        member_models(members, k - 1).push((members[k - 1].name@, model(members[k - 1].value)))
    }
}

impl View for JsonValue {
    type V = JsonModel;

    open spec fn view(&self) -> JsonModel {
        model(*self)
    }
}

impl View for Param {
    type V = ParamModel;

    open spec fn view(&self) -> ParamModel {
        ParamModel {
            name: self.name@,
            kind: self.kind@,
            value: match self.value {
                Some(v) => Some(v@),
                None => None,
            },
        }
    }
}

/// What each of `params` holds.
pub open spec fn param_models(params: Seq<Param>) -> Seq<ParamModel> {
    Seq::new(params.len(), |i: int| params[i]@)
}

/// The value of the first member named `key`, from position `from` on.
pub open spec fn field_from(
    obj: Seq<(Seq<char>, JsonModel)>,
    key: Seq<char>,
    from: int,
) -> Option<JsonModel>
    decreases obj.len() - from,
{
    if from < 0 || from >= obj.len() {
        None
    } else if obj[from].0 == key {
        Some(obj[from].1)
    } else {
        field_from(obj, key, from + 1)
    }
}

/// The value of the first member of the object `v` that is named `key`;
/// nothing where `v` is no object or has no such member.
pub open spec fn field(v: JsonModel, key: Seq<char>) -> Option<JsonModel> {
    match v {
        JsonModel::Obj(obj) => field_from(obj, key, 0),
        _ => None,
    }
}

/// The text of the member `key`, where it is there and is a string.
pub open spec fn text_field(v: JsonModel, key: Seq<char>) -> Option<Seq<char>> {
    match field(v, key) {
        Some(JsonModel::Str(s)) => Some(s),
        _ => None,
    }
}

/// The number of the member `key`, where it is there and is a whole number.
pub open spec fn int_field(v: JsonModel, key: Seq<char>) -> Option<i64> {
    match field(v, key) {
        Some(JsonModel::Int(i)) => Some(i),
        _ => None,
    }
}

/// The truth value of the member `key`, where it is there and is one.
pub open spec fn bool_field(v: JsonModel, key: Seq<char>) -> Option<bool> {
    match field(v, key) {
        Some(JsonModel::Bool(b)) => Some(b),
        _ => None,
    }
}

/// The items of the member `key`, where it is there and is an array.
pub open spec fn items_field(v: JsonModel, key: Seq<char>) -> Option<Seq<JsonModel>> {
    match field(v, key) {
        Some(JsonModel::Arr(items)) => Some(items),
        _ => None,
    }
}

/// The text of an optional string.
pub open spec fn opt_text(s: Option<String>) -> Option<Seq<char>> {
    match s {
        Some(t) => Some(t@),
        None => None,
    }
}

/// The models of the first `k` items are `k` many, and each is the model of
/// its item.
pub proof fn lemma_models(items: Seq<JsonValue>, k: int)
    requires
        0 <= k <= items.len(),
    ensures
        models(items, k).len() == k,
        forall|i: int| 0 <= i < k ==> #[trigger] models(items, k)[i] == model(items[i]),
    decreases k,
{
    if k > 0 {
        lemma_models(items, k - 1);
    }
}

/// The models of the first `k` members are `k` many, and each is the name and
/// the model of its member.
pub proof fn lemma_member_models(members: Seq<JsonMember>, k: int)
    requires
        0 <= k <= members.len(),
    ensures
        member_models(members, k).len() == k,
        forall|i: int|
            0 <= i < k ==> #[trigger] member_models(members, k)[i] == (
                members[i].name@,
                model(members[i].value),
            ),
    decreases k,
{
    if k > 0 {
        lemma_member_models(members, k - 1);
    }
}

impl JsonValue {
    /// The members of the value, where it is an object.
    pub fn as_object(&self) -> (r: Option<&Vec<JsonMember>>)
        ensures
            match r {
                Some(members) => *self == JsonValue::Obj(*members),
                None => !(self is Obj),
            },
    {
        match self {
            JsonValue::Obj(members) => Some(members),
            _ => None,
        }
    }

    /// The items of the value, where it is an array.
    pub fn as_array(&self) -> (r: Option<&Vec<JsonValue>>)
        ensures
            match r {
                Some(items) => *self == JsonValue::Arr(*items) && self@ == JsonModel::Arr(
                    models(items@, items@.len() as int),
                ),
                None => !(self is Arr) && !(self@ is Arr),
            },
    {
        match self {
            JsonValue::Arr(items) => Some(items),
            _ => None,
        }
    }

    /// The value of the first member named `key`, where the value is an
    /// object that has one.
    pub fn get(&self, key: &str) -> (r: Option<&JsonValue>)
        ensures
            match r {
                Some(v) => field(self@, key@) == Some(v@) && decreases_to!(*self => *v),
                None => field(self@, key@) is None,
            },
    {
        match self {
            JsonValue::Obj(members) => {
                let ghost obj = member_models(members@, members@.len() as int);
                proof {
                    lemma_member_models(members@, members@.len() as int);
                }
                let mut i: usize = 0;
                while i < members.len()
                    invariant
                        *self is Obj,
                        self->Obj_0 == *members,
                        i <= members.len(),
                        obj == member_models(members@, members@.len() as int),
                        obj.len() == members@.len(),
                        forall|j: int|
                            0 <= j < members@.len() ==> #[trigger] obj[j] == (
                                members@[j].name@,
                                model(members@[j].value),
                            ),
                        field_from(obj, key@, 0) == field_from(obj, key@, i as int),
                    decreases members.len() - i,
                {
                    if same_text(members[i].name.as_str(), key) {
                        proof {
                            assert(decreases_to!(self->Obj_0 => self->Obj_0[i as int]));
                        }
                        return Some(&members[i].value);
                    }
                    i = i + 1;
                }
                None
            },
            _ => None,
        }
    }

    /// The text of the member `key`, where it is there and is a string.
    pub fn get_str(&self, key: &str) -> (r: Option<String>)
        ensures
            opt_text(r) == text_field(self@, key@),
    {
        match self.get(key) {
            Some(JsonValue::Str(s)) => Some(s.clone()),
            _ => None,
        }
    }

    /// The number of the member `key`, where it is there and is a whole
    /// number.
    pub fn get_int(&self, key: &str) -> (r: Option<i64>)
        ensures
            r == int_field(self@, key@),
    {
        match self.get(key) {
            Some(JsonValue::Int(i)) => Some(*i),
            _ => None,
        }
    }

    /// The truth value of the member `key`, where it is there and is one.
    pub fn get_bool(&self, key: &str) -> (r: Option<bool>)
        ensures
            r == bool_field(self@, key@),
    {
        match self.get(key) {
            Some(JsonValue::Bool(b)) => Some(*b),
            _ => None,
        }
    }

    /// The items of the member `key`, where it is there and is an array.
    pub fn get_items(&self, key: &str) -> (r: Option<&Vec<JsonValue>>)
        ensures
            match r {
                Some(items) => items_field(self@, key@) == Some(
                    models(items@, items@.len() as int),
                ) && decreases_to!(*self => *items),
                None => items_field(self@, key@) is None,
            },
    {
        match self.get(key) {
            Some(v) => v.as_array(),
            None => None,
        }
    }

    /// A copy of the value.
    pub fn duplicate(&self) -> (r: JsonValue)
        ensures
            r@ == self@,
        decreases *self,
    {
        match self {
            JsonValue::Null => JsonValue::Null,
            JsonValue::Bool(b) => JsonValue::Bool(*b),
            JsonValue::Int(i) => JsonValue::Int(*i),
            JsonValue::Real(s) => JsonValue::Real(s.clone()),
            JsonValue::Str(s) => JsonValue::Str(s.clone()),
            JsonValue::Arr(items) => {
                let mut out: Vec<JsonValue> = Vec::new();
                let mut i: usize = 0;
                while i < items.len()
                    invariant
                        *self is Arr,
                        *items == self->Arr_0,
                        i <= items.len(),
                        out@.len() == i,
                        models(out@, i as int) == models(items@, i as int),
                    decreases items.len() - i,
                {
                    proof {
                        assert(decreases_to!(self->Arr_0 => self->Arr_0[i as int]));
                    }
                    let ghost before = out@;
                    let copy = items[i].duplicate();
                    out.push(copy);
                    proof {
                        lemma_models_prefix(before, out@, i as int);
                    }
                    i = i + 1;
                }
                JsonValue::Arr(out)
            },
            JsonValue::Obj(members) => {
                let mut out: Vec<JsonMember> = Vec::new();
                let mut i: usize = 0;
                while i < members.len()
                    invariant
                        *self is Obj,
                        *members == self->Obj_0,
                        i <= members.len(),
                        out@.len() == i,
                        member_models(out@, i as int) == member_models(members@, i as int),
                    decreases members.len() - i,
                {
                    proof {
                        assert(decreases_to!(self->Obj_0 => self->Obj_0[i as int]));
                    }
                    let ghost before = out@;
                    let copy = JsonMember {
                        name: members[i].name.clone(),
                        value: members[i].value.duplicate(),
                    };
                    out.push(copy);
                    proof {
                        lemma_member_models_prefix(before, out@, i as int);
                    }
                    i = i + 1;
                }
                JsonValue::Obj(out)
            },
        }
    }
}

/// The models of the first `k` items depend on those items only.
pub proof fn lemma_models_prefix(a: Seq<JsonValue>, b: Seq<JsonValue>, k: int)
    requires
        0 <= k <= a.len(),
        k <= b.len(),
        forall|i: int| 0 <= i < k ==> a[i] == b[i],
    ensures
        models(a, k) == models(b, k),
    decreases k,
{
    if k > 0 {
        lemma_models_prefix(a, b, k - 1);
    }
}

/// The models of the first `k` members depend on those members only.
pub proof fn lemma_member_models_prefix(a: Seq<JsonMember>, b: Seq<JsonMember>, k: int)
    requires
        0 <= k <= a.len(),
        k <= b.len(),
        forall|i: int| 0 <= i < k ==> a[i] == b[i],
    ensures
        member_models(a, k) == member_models(b, k),
    decreases k,
{
    if k > 0 {
        lemma_member_models_prefix(a, b, k - 1);
    }
}

impl Param {
    /// A copy of the parameter.
    pub fn duplicate(&self) -> (r: Param)
        ensures
            r@ == self@,
    {
        Param {
            name: self.name.clone(),
            kind: self.kind.clone(),
            value: match &self.value {
                Some(v) => Some(v.duplicate()),
                None => None,
            },
        }
    }
}

} // verus!
