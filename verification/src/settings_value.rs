//! How a setting is stored in the settings file.
//!
//! Every setting is written as a JSON-like file value and read back from one. Reading is
//! forgiving where it can be: a list keeps the elements it can read and drops the others,
//! so a value that a newer build no longer knows costs that one element, not the whole
//! list. A value of the wrong kind reads as nothing, and the loader then falls back to
//! the setting's default.

use vstd::prelude::*;

verus! {

/// A value as stored in the settings file.
#[derive(Debug, PartialEq)]
pub enum FileValue {
    Null,
    Bool(bool),
    /// A non-negative integer.
    Number(u64),
    /// Any other number: negative or fractional. No setting reads one.
    OtherNumber,
    String(String),
    Array(Vec<FileValue>),
    Object(Vec<(String, FileValue)>),
}

/// The mathematical model of a file value: strings and keys are character sequences.
pub enum FileModel {
    Null,
    Bool(bool),
    Number(u64),
    OtherNumber,
    Str(Seq<char>),
    Array(Seq<FileModel>),
    Object(Seq<(Seq<char>, FileModel)>),
}

/// The model of a file value.
pub open spec fn file_model(v: FileValue) -> FileModel
    decreases v,
{
    match v {
        FileValue::Null => FileModel::Null,
        FileValue::Bool(b) => FileModel::Bool(b),
        FileValue::Number(n) => FileModel::Number(n),
        FileValue::OtherNumber => FileModel::OtherNumber,
        FileValue::String(s) => FileModel::Str(s@),
        FileValue::Array(a) => FileModel::Array(array_model(a@)),
        FileValue::Object(o) => FileModel::Object(object_model(o@)),
    }
}

/// The model of an array's elements.
pub open spec fn array_model(a: Seq<FileValue>) -> Seq<FileModel>
    decreases a,
{
    if a.len() == 0 {
        Seq::empty()
    } else {
        array_model(a.drop_last()).push(file_model(a.last()))
    }
}

/// The model of an object's entries.
pub open spec fn object_model(o: Seq<(String, FileValue)>) -> Seq<(Seq<char>, FileModel)>
    decreases o,
{
    if o.len() == 0 {
        Seq::empty()
    } else {
        object_model(o.drop_last()).push((o.last().0@, file_model(o.last().1)))
    }
}

/// Element by element, the model of an array is the model of each element.
pub proof fn lemma_array_model(a: Seq<FileValue>)
    ensures
        array_model(a).len() == a.len(),
        forall|i: int| 0 <= i < a.len() ==> #[trigger] array_model(a)[i] == file_model(a[i]),
    decreases a.len(),
{
    if a.len() > 0 {
        lemma_array_model(a.drop_last());
        assert forall|i: int| 0 <= i < a.len() implies #[trigger] array_model(a)[i] == file_model(
            a[i],
        ) by {
            if i < a.len() - 1 {
                assert(a.drop_last()[i] == a[i]);
            }
        }
    }
}

/// Entry by entry, the model of an object is the model of each entry.
pub proof fn lemma_object_model(o: Seq<(String, FileValue)>)
    ensures
        object_model(o).len() == o.len(),
        forall|i: int|
            0 <= i < o.len() ==> #[trigger] object_model(o)[i] == (o[i].0@, file_model(o[i].1)),
    decreases o.len(),
{
    if o.len() > 0 {
        lemma_object_model(o.drop_last());
        assert forall|i: int| 0 <= i < o.len() implies #[trigger] object_model(o)[i] == (
            o[i].0@,
            file_model(o[i].1),
        ) by {
            if i < o.len() - 1 {
                assert(o.drop_last()[i] == o[i]);
            }
        }
    }
}

/// A type that can be stored in the settings file.
pub trait SettingsValue: Sized {
    /// The file value `self` is stored as.
    spec fn encode(&self) -> FileModel;

    /// Whether a file value can be read as this type.
    spec fn decodable(m: FileModel) -> bool;

    /// Whether reading the file value `m` may give `x`.
    spec fn decodes_to(m: FileModel, x: Self) -> bool;

    /// Stores `self` as a file value.
    fn to_file_value(&self) -> (r: FileValue)
        ensures
            file_model(r) == self.encode(),
    ;

    /// Reads a file value; `None` when it cannot be read as this type.
    fn from_file_value(value: &FileValue) -> (r: Option<Self>)
        ensures
            match r {
                Some(x) => Self::decodable(file_model(*value)) && Self::decodes_to(
                    file_model(*value),
                    x,
                ),
                None => !Self::decodable(file_model(*value)),
            },
    ;
}

/// Whether `x` reads back as itself from what it is stored as.
pub open spec fn round_trips<T: SettingsValue>(x: T) -> bool {
    T::decodable(x.encode()) && T::decodes_to(x.encode(), x)
}

impl SettingsValue for bool {
    open spec fn encode(&self) -> FileModel {
        FileModel::Bool(*self)
    }

    open spec fn decodable(m: FileModel) -> bool {
        m is Bool
    }

    open spec fn decodes_to(m: FileModel, x: bool) -> bool {
        m == FileModel::Bool(x)
    }

    fn to_file_value(&self) -> (r: FileValue) {
        FileValue::Bool(*self)
    }

    fn from_file_value(value: &FileValue) -> (r: Option<bool>) {
        match value {
            FileValue::Bool(b) => Some(*b),
            _ => None,
        }
    }
}

impl SettingsValue for u32 {
    open spec fn encode(&self) -> FileModel {
        FileModel::Number(*self as u64)
    }

    open spec fn decodable(m: FileModel) -> bool {
        m matches FileModel::Number(n) && n <= u32::MAX
    }

    open spec fn decodes_to(m: FileModel, x: u32) -> bool {
        m == FileModel::Number(x as u64)
    }

    fn to_file_value(&self) -> (r: FileValue) {
        FileValue::Number(*self as u64)
    }

    fn from_file_value(value: &FileValue) -> (r: Option<u32>) {
        match value {
            FileValue::Number(n) => if *n <= u32::MAX as u64 {
                Some(*n as u32)
            } else {
                None
            },
            _ => None,
        }
    }
}

impl SettingsValue for String {
    open spec fn encode(&self) -> FileModel {
        FileModel::Str(self@)
    }

    open spec fn decodable(m: FileModel) -> bool {
        m is Str
    }

    open spec fn decodes_to(m: FileModel, x: String) -> bool {
        m == FileModel::Str(x@)
    }

    fn to_file_value(&self) -> (r: FileValue) {
        FileValue::String(self.clone())
    }

    fn from_file_value(value: &FileValue) -> (r: Option<String>) {
        match value {
            FileValue::String(s) => Some(s.clone()),
            _ => None,
        }
    }
}

impl<T: SettingsValue> SettingsValue for Option<T> {
    open spec fn encode(&self) -> FileModel {
        match self {
            None => FileModel::Null,
            Some(x) => x.encode(),
        }
    }

    open spec fn decodable(m: FileModel) -> bool {
        m is Null || T::decodable(m)
    }

    open spec fn decodes_to(m: FileModel, x: Option<T>) -> bool {
        match x {
            None => m is Null,
            Some(y) => !(m is Null) && T::decodes_to(m, y),
        }
    }

    fn to_file_value(&self) -> (r: FileValue) {
        match self {
            None => FileValue::Null,
            Some(x) => x.to_file_value(),
        }
    }

    fn from_file_value(value: &FileValue) -> (r: Option<Option<T>>) {
        match value {
            FileValue::Null => Some(None),
            _ => match T::from_file_value(value) {
                Some(y) => Some(Some(y)),
                None => None,
            },
        }
    }
}

/// What the elements of `s` are stored as.
pub open spec fn encode_all<T: SettingsValue>(s: Seq<T>) -> Seq<FileModel> {
    s.map_values(|x: T| x.encode())
}

/// The elements of `a` that can be read as `T`, in order.
pub open spec fn decodable_items<T: SettingsValue>(a: Seq<FileModel>) -> Seq<FileModel>
    decreases a.len(),
{
    if a.len() == 0 {
        a
    } else {
        let p = decodable_items::<T>(a.drop_last());
        if T::decodable(a.last()) {
            p.push(a.last())
        } else {
            p
        }
    }
}

impl<T: SettingsValue> SettingsValue for Vec<T> {
    open spec fn encode(&self) -> FileModel {
        FileModel::Array(encode_all(self@))
    }

    open spec fn decodable(m: FileModel) -> bool {
        m is Array
    }

    open spec fn decodes_to(m: FileModel, x: Vec<T>) -> bool {
        m matches FileModel::Array(a) && {
            let d = decodable_items::<T>(a);
            &&& x@.len() == d.len()
            &&& forall|i: int| 0 <= i < d.len() ==> #[trigger] T::decodes_to(d[i], x@[i])
        }
    }

    fn to_file_value(&self) -> (r: FileValue) {
        let mut out: Vec<FileValue> = Vec::new();
        let mut i: usize = 0;
        while i < self.len()
            invariant
                i <= self@.len(),
                array_model(out@) == encode_all(self@.take(i as int)),
            decreases self.len() - i,
        {
            let v = self[i].to_file_value();
            let ghost before = out@;
            out.push(v);
            assert(out@.drop_last() =~= before);
            assert(encode_all(self@.take(i + 1)) =~= encode_all(self@.take(i as int)).push(
                self@[i as int].encode(),
            ));
            i = i + 1;
        }
        assert(self@.take(i as int) =~= self@);
        FileValue::Array(out)
    }

    fn from_file_value(value: &FileValue) -> (r: Option<Vec<T>>) {
        let a = match value {
            FileValue::Array(a) => a,
            _ => return None,
        };
        let ghost am = array_model(a@);
        proof {
            lemma_array_model(a@);
        }
        let mut out: Vec<T> = Vec::new();
        let mut i: usize = 0;
        while i < a.len()
            invariant
                am == array_model(a@),
                am.len() == a@.len(),
                forall|j: int| 0 <= j < am.len() ==> #[trigger] am[j] == file_model(a@[j]),
                i <= a@.len(),
                out@.len() == decodable_items::<T>(am.take(i as int)).len(),
                forall|j: int|
                    0 <= j < out@.len() ==> #[trigger] T::decodes_to(
                        decodable_items::<T>(am.take(i as int))[j],
                        out@[j],
                    ),
            decreases a.len() - i,
        {
            assert(am.take(i + 1).drop_last() =~= am.take(i as int));
            assert(am.take(i + 1).last() == file_model(a@[i as int]));
            match T::from_file_value(&a[i]) {
                Some(x) => {
                    out.push(x);
                },
                None => {},
            }
            i = i + 1;
        }
        assert(am.take(i as int) =~= am);
        Some(out)
    }
}

/// With every element decodable, the decodable elements are all of them.
proof fn lemma_all_decodable<T: SettingsValue>(a: Seq<FileModel>)
    requires
        forall|i: int| 0 <= i < a.len() ==> T::decodable(#[trigger] a[i]),
    ensures
        decodable_items::<T>(a) == a,
    decreases a.len(),
{
    if a.len() > 0 {
        lemma_all_decodable::<T>(a.drop_last());
        assert(a.drop_last().push(a.last()) =~= a);
    }
}

/// Law: booleans, numbers and strings read back as themselves.
pub proof fn lemma_scalars_round_trip(b: bool, n: u32, s: String)
    ensures
        round_trips(b),
        round_trips(n),
        round_trips(s),
{
}

/// Law: a list whose elements read back as themselves does too.
pub proof fn lemma_vec_round_trips<T: SettingsValue>(v: Vec<T>)
    requires
        forall|i: int| 0 <= i < v@.len() ==> round_trips(#[trigger] v@[i]),
    ensures
        round_trips(v),
{
    let a = encode_all(v@);
    assert forall|i: int| 0 <= i < a.len() implies T::decodable(#[trigger] a[i]) by {
        assert(round_trips(v@[i]));
    }
    lemma_all_decodable::<T>(a);
    assert forall|i: int| 0 <= i < a.len() implies #[trigger] T::decodes_to(a[i], v@[i]) by {
        assert(round_trips(v@[i]));
    }
}

/// Law: an optional value reads back as itself, provided what it holds does and is not
/// stored as `null` (which reads back as no value).
pub proof fn lemma_option_round_trips<T: SettingsValue>(o: Option<T>)
    requires
        o matches Some(y) ==> round_trips(y) && !(y.encode() is Null),
    ensures
        round_trips(o),
{
}

/// The value stored under `k` in an object's entries: the first entry with that key.
pub open spec fn field(o: Seq<(Seq<char>, FileModel)>, k: Seq<char>) -> Option<FileModel>
    decreases o.len(),
{
    if o.len() == 0 {
        None
    } else if o[0].0 == k {
        Some(o[0].1)
    } else {
        field(o.drop_first(), k)
    }
}

/// What `field` finds at the first entry with key `k`, and that it finds nothing without
/// one.
proof fn lemma_field_at(o: Seq<(Seq<char>, FileModel)>, k: Seq<char>, i: int)
    ensures
        0 <= i < o.len() && o[i].0 == k && (forall|j: int| 0 <= j < i ==> #[trigger] o[j].0 != k)
            ==> field(o, k) == Some(o[i].1),
        (forall|j: int| 0 <= j < o.len() ==> #[trigger] o[j].0 != k) ==> field(o, k) is None,
    decreases o.len(),
{
    if o.len() > 0 {
        let t = o.drop_first();
        lemma_field_at(t, k, i - 1);
        if 0 < i < o.len() && o[i].0 == k && (forall|j: int| 0 <= j < i ==> #[trigger] o[j].0 != k) {
            assert(o[0].0 != k);
            assert forall|j: int| 0 <= j < i - 1 implies #[trigger] t[j].0 != k by {
                assert(t[j] == o[j + 1]);
            }
        }
        if forall|j: int| 0 <= j < o.len() ==> #[trigger] o[j].0 != k {
            assert(o[0].0 != k);
            assert forall|j: int| 0 <= j < t.len() implies #[trigger] t[j].0 != k by {
                assert(t[j] == o[j + 1]);
            }
        }
    }
}

/// The value stored under `k` in an object's entries.
pub fn find_field<'a>(o: &'a Vec<(String, FileValue)>, k: &str) -> (r: Option<&'a FileValue>)
    ensures
        match r {
            Some(v) => field(object_model(o@), k@) == Some(file_model(*v)),
            None => field(object_model(o@), k@) is None,
        },
{
    proof {
        lemma_object_model(o@);
    }
    let ghost om = object_model(o@);
    let mut i: usize = 0;
    while i < o.len()
        invariant
            om == object_model(o@),
            om.len() == o@.len(),
            forall|j: int| 0 <= j < om.len() ==> #[trigger] om[j] == (o@[j].0@, file_model(o@[j].1)),
            i <= o@.len(),
            forall|j: int| 0 <= j < i ==> #[trigger] om[j].0 != k@,
        decreases o.len() - i,
    {
        if crate::text::str_eq(o[i].0.as_str(), k) {
            proof {
                lemma_field_at(om, k@, i as int);
            }
            return Some(&o[i].1);
        }
        assert(om[i as int].0 != k@);
        i = i + 1;
    }
    proof {
        lemma_field_at(om, k@, 0);
    }
    None
}

} // verus!
