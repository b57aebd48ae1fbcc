//! Records, record sets and column sets, and how form occurrences are grouped
//! into them.
use vstd::prelude::*;

use crate::normalize::{normalize, normalize_spec};
use crate::scalar::{infer, infer_spec, Scalar, ScalarModel};

verus! {

/// One field of a form occurrence as the document holds it: its tag name and
/// its text, if it has any.
#[derive(Clone, Debug)]
pub struct RawField {
    pub tag: String,
    pub text: Option<String>,
}

/// One form occurrence as the document holds it: its tag name and its fields
/// in document order.
#[derive(Clone, Debug)]
pub struct RawForm {
    pub tag: String,
    pub fields: Vec<RawField>,
}

/// A normalized key with its typed value.
#[derive(Clone, Debug)]
pub struct Field {
    pub key: String,
    pub value: Scalar,
}

/// The fields of one form occurrence, in document order, one per key.
#[derive(Clone, Debug)]
pub struct Record {
    pub fields: Vec<Field>,
}

/// The records of one form name, in the order of their occurrences.
#[derive(Clone, Debug)]
pub struct FormGroup {
    pub name: String,
    pub records: Vec<Record>,
}

/// Records grouped by normalized form name, names in order of first occurrence.
#[derive(Clone, Debug)]
pub struct RecordSet {
    pub groups: Vec<FormGroup>,
}

/// The values of one column, one per field occurrence of that name.
#[derive(Clone, Debug)]
pub struct Column {
    pub name: String,
    pub values: Vec<Scalar>,
}

/// Columns by normalized field name, names in order of first occurrence.
#[derive(Clone, Debug)]
pub struct ColumnSet {
    pub columns: Vec<Column>,
}

pub type RawFieldModel = (Seq<char>, Option<Seq<char>>);

pub type RawFormModel = (Seq<char>, Seq<RawFieldModel>);

pub type RecordModel = Seq<(Seq<char>, ScalarModel)>;

pub type RecordSetModel = Seq<(Seq<char>, Seq<RecordModel>)>;

pub type ColumnSetModel = Seq<(Seq<char>, Seq<ScalarModel>)>;

pub open spec fn opt_view(t: Option<String>) -> Option<Seq<char>> {
    match t {
        Some(s) => Some(s@),
        None => None,
    }
}

impl View for RawField {
    type V = RawFieldModel;

    open spec fn view(&self) -> RawFieldModel {
        (self.tag@, opt_view(self.text))
    }
}

impl View for RawForm {
    type V = RawFormModel;

    open spec fn view(&self) -> RawFormModel {
        (self.tag@, self.fields@.map_values(|f: RawField| f@))
    }
}

impl View for Field {
    type V = (Seq<char>, ScalarModel);

    open spec fn view(&self) -> (Seq<char>, ScalarModel) {
        (self.key@, self.value@)
    }
}

impl View for Record {
    type V = RecordModel;

    open spec fn view(&self) -> RecordModel {
        self.fields@.map_values(|f: Field| f@)
    }
}

impl View for FormGroup {
    type V = (Seq<char>, Seq<RecordModel>);

    open spec fn view(&self) -> (Seq<char>, Seq<RecordModel>) {
        (self.name@, self.records@.map_values(|r: Record| r@))
    }
}

impl View for RecordSet {
    type V = RecordSetModel;

    open spec fn view(&self) -> RecordSetModel {
        self.groups@.map_values(|g: FormGroup| g@)
    }
}

impl View for Column {
    type V = (Seq<char>, Seq<ScalarModel>);

    open spec fn view(&self) -> (Seq<char>, Seq<ScalarModel>) {
        (self.name@, self.values@.map_values(|v: Scalar| v@))
    }
}

impl View for ColumnSet {
    type V = ColumnSetModel;

    open spec fn view(&self) -> ColumnSetModel {
        self.columns@.map_values(|c: Column| c@)
    }
}

pub open spec fn forms_view(forms: Seq<RawForm>) -> Seq<RawFormModel> {
    forms.map_values(|f: RawForm| f@)
}

/// Whether some entry of `s` has key `k`.
pub open spec fn has_key<V>(s: Seq<(Seq<char>, V)>, k: Seq<char>) -> bool {
    exists|i: int| 0 <= i < s.len() && #[trigger] s[i].0 == k
}

/// The position of the entry with key `k`; meaningful where there is one.
pub open spec fn key_index<V>(s: Seq<(Seq<char>, V)>, k: Seq<char>) -> int {
    choose|i: int| 0 <= i < s.len() && #[trigger] s[i].0 == k
}

pub open spec fn keys_unique<V>(s: Seq<(Seq<char>, V)>) -> bool {
    forall|i: int, j: int| 0 <= i < j < s.len() ==> #[trigger] s[i].0 != #[trigger] s[j].0
}

/// `s` with the value under `k` replaced by `v` in place, or `(k, v)` added
/// at the end where `k` is new.
pub open spec fn upsert<V>(s: Seq<(Seq<char>, V)>, k: Seq<char>, v: V) -> Seq<(Seq<char>, V)> {
    if has_key(s, k) {
        s.update(key_index(s, k), (k, v))
    } else {
        s.push((k, v))
    }
}

/// `s` with `v` appended to the sequence under `k`, which is started where
/// `k` is new.
pub open spec fn append_to<V>(s: Seq<(Seq<char>, Seq<V>)>, k: Seq<char>, v: V) -> Seq<
    (Seq<char>, Seq<V>),
> {
    if has_key(s, k) {
        s.update(key_index(s, k), (k, s[key_index(s, k)].1.push(v)))
    } else {
        s.push((k, seq![v]))
    }
}

/// The record built from the fields of one form occurrence: each field's key
/// normalized and its text typed; a field whose key is empty is left out, and
/// a repeated key keeps its place and takes the later value.
pub open spec fn record_spec(fields: Seq<RawFieldModel>, short_names: bool) -> RecordModel
    decreases fields.len(),
{
    if fields.len() == 0 {
        seq![]
    } else {
        let r = record_spec(fields.drop_last(), short_names);
        let k = normalize_spec(fields.last().0, short_names);
        if k.len() == 0 {
            r
        } else {
            upsert(r, k, infer_spec(fields.last().1))
        }
    }
}

/// The record-oriented grouping of form occurrences: each record appended to
/// the group of its normalized form name; a form whose name is empty is left
/// out.
pub open spec fn records_spec(forms: Seq<RawFormModel>, short_names: bool) -> RecordSetModel
    decreases forms.len(),
{
    if forms.len() == 0 {
        seq![]
    } else {
        let g = records_spec(forms.drop_last(), short_names);
        let name = normalize_spec(forms.last().0, short_names);
        if name.len() == 0 {
            g
        } else {
            append_to(g, name, record_spec(forms.last().1, short_names))
        }
    }
}

/// `c` with the value of each field appended to the column of its normalized
/// key; a field whose key is empty is left out.
pub open spec fn add_fields(c: ColumnSetModel, fields: Seq<RawFieldModel>, short_names: bool) -> ColumnSetModel
    decreases fields.len(),
{
    if fields.len() == 0 {
        c
    } else {
        let c2 = add_fields(c, fields.drop_last(), short_names);
        let k = normalize_spec(fields.last().0, short_names);
        if k.len() == 0 {
            c2
        } else {
            append_to(c2, k, infer_spec(fields.last().1))
        }
    }
}

/// The columnar grouping: every field of every form, in document order,
/// appended to the column of its normalized key.
pub open spec fn columns_spec(forms: Seq<RawFormModel>, short_names: bool) -> ColumnSetModel
    decreases forms.len(),
{
    if forms.len() == 0 {
        seq![]
    } else {
        add_fields(columns_spec(forms.drop_last(), short_names), forms.last().1, short_names)
    }
}

proof fn lemma_upsert_unique<V>(s: Seq<(Seq<char>, V)>, k: Seq<char>, v: V)
    requires
        keys_unique(s),
    ensures
        keys_unique(upsert(s, k, v)),
{
}

proof fn lemma_append_unique<V>(s: Seq<(Seq<char>, Seq<V>)>, k: Seq<char>, v: V)
    requires
        keys_unique(s),
    ensures
        keys_unique(append_to(s, k, v)),
{
}

proof fn lemma_records_unique(forms: Seq<RawFormModel>, short_names: bool)
    ensures
        keys_unique(records_spec(forms, short_names)),
    decreases forms.len(),
{
    if forms.len() > 0 {
        lemma_records_unique(forms.drop_last(), short_names);
        let g = records_spec(forms.drop_last(), short_names);
        let name = normalize_spec(forms.last().0, short_names);
        lemma_append_unique(g, name, record_spec(forms.last().1, short_names));
    }
}

impl Scalar {
    /// A copy of the value.
    pub fn duplicate(&self) -> (r: Scalar)
        ensures
            r@ == self@,
    {
        match self {
            Scalar::Null => Scalar::Null,
            Scalar::Integer(n) => Scalar::Integer(*n),
            Scalar::Float(t) => Scalar::Float(t.clone()),
            Scalar::Date(d) => Scalar::Date(*d),
            Scalar::Text(t) => Scalar::Text(t.clone()),
        }
    }
}

impl Record {
    /// A record with no fields.
    pub fn new() -> (r: Record)
        ensures
            r@ == Seq::<(Seq<char>, ScalarModel)>::empty(),
    {
        Record { fields: Vec::new() }
    }

    /// The position of the field with key `key`, if there is one.
    pub fn find(&self, key: &String) -> (r: Option<usize>)
        ensures
            match r {
                Some(i) => i < self@.len() && self@[i as int].0 == key@,
                None => !has_key(self@, key@),
            },
    {
        let mut i: usize = 0;
        while i < self.fields.len()
            invariant
                i <= self.fields@.len(),
                forall|j: int| 0 <= j < i ==> #[trigger] self@[j].0 != key@,
            decreases self.fields@.len() - i,
        {
            if self.fields[i].key == *key {
                return Some(i);
            }
            i = i + 1;
        }
        None
    }

    /// The value under `key`, if there is one.
    pub fn get(&self, key: &String) -> (r: Option<&Scalar>)
        requires
            keys_unique(self@),
        ensures
            match r {
                Some(v) => has_key(self@, key@) && self@[key_index(self@, key@)].1 == v@,
                None => !has_key(self@, key@),
            },
    {
        match self.find(key) {
            Some(i) => {
                proof {
                    let k = key_index(self@, key@);
                    assert(self@[i as int].0 == key@);
                    assert(k == i);
                }
                Some(&self.fields[i].value)
            },
            None => None,
        }
    }

    /// Sets the value under `key`, in place where the key is present, else as
    /// a new last field.
    pub fn set(&mut self, key: String, value: Scalar)
        requires
            keys_unique(old(self)@),
        ensures
            final(self)@ == upsert(old(self)@, key@, value@),
            keys_unique(final(self)@),
    {
        proof {
            lemma_upsert_unique(self@, key@, value@);
        }
        let ghost v = value@;
        match self.find(&key) {
            Some(i) => {
                proof {
                    assert(key_index(self@, key@) == i);
                }
                let ghost before = self@;
                let ghost k = key@;
                self.fields.set(i, Field { key, value });
                assert(self@ =~= before.update(i as int, (k, v)));
            },
            None => {
                let ghost before = self@;
                let ghost k = key@;
                self.fields.push(Field { key, value });
                assert(self@ =~= before.push((k, v)));
            },
        }
    }

    /// A copy of the record.
    pub fn duplicate(&self) -> (r: Record)
        ensures
            r@ == self@,
    {
        let mut fields: Vec<Field> = Vec::new();
        let mut i: usize = 0;
        while i < self.fields.len()
            invariant
                i <= self.fields@.len(),
                fields@.map_values(|f: Field| f@) == self@.subrange(0, i as int),
            decreases self.fields@.len() - i,
        {
            let f = &self.fields[i];
            let ghost before = fields@.map_values(|f: Field| f@);
            fields.push(Field { key: f.key.clone(), value: f.value.duplicate() });
            assert(fields@.map_values(|f: Field| f@) =~= before.push(self@[i as int]));
            assert(self@.subrange(0, i + 1) =~= self@.subrange(0, i as int).push(self@[i as int]));
            i = i + 1;
        }
        let r = Record { fields };
        assert(r@ =~= self@);
        r
    }
}

/// Builds the record of one form occurrence.
pub fn build_record(fields: &Vec<RawField>, short_names: bool) -> (r: Record)
    ensures
        r@ == record_spec(fields@.map_values(|f: RawField| f@), short_names),
        keys_unique(r@),
{
    let ghost fv = fields@.map_values(|f: RawField| f@);
    let mut rec = Record::new();
    let mut i: usize = 0;
    while i < fields.len()
        invariant
            i <= fields@.len(),
            fv == fields@.map_values(|f: RawField| f@),
            rec@ == record_spec(fv.subrange(0, i as int), short_names),
            keys_unique(rec@),
        decreases fields@.len() - i,
    {
        let f = &fields[i];
        assert(fv.subrange(0, i + 1).drop_last() =~= fv.subrange(0, i as int));
        assert(fv.subrange(0, i + 1).last() == f@);
        let key = normalize(f.tag.as_str(), short_names);
        if !key.as_str().is_empty() {
            let value = match &f.text {
                Some(t) => infer(Some(t.as_str())),
                None => infer(None),
            };
            rec.set(key, value);
        } else {
            assert(key@.len() == 0);
        }
        i = i + 1;
    }
    assert(fv.subrange(0, fields@.len() as int) =~= fv);
    rec
}

impl RecordSet {
    /// The position of the group named `name`, if there is one.
    fn find(&self, name: &String) -> (r: Option<usize>)
        ensures
            match r {
                Some(i) => i < self@.len() && self@[i as int].0 == name@,
                None => !has_key(self@, name@),
            },
    {
        let mut i: usize = 0;
        while i < self.groups.len()
            invariant
                i <= self.groups@.len(),
                forall|j: int| 0 <= j < i ==> #[trigger] self@[j].0 != name@,
            decreases self.groups@.len() - i,
        {
            if self.groups[i].name == *name {
                return Some(i);
            }
            i = i + 1;
        }
        None
    }

    /// Appends `rec` to the group named `name`, starting the group where the
    /// name is new.
    fn add(&mut self, name: String, rec: Record)
        requires
            keys_unique(old(self)@),
        ensures
            final(self)@ == append_to(old(self)@, name@, rec@),
    {
        let ghost before = self@;
        let ghost k = name@;
        let ghost rv = rec@;
        match self.find(&name) {
            Some(i) => {
                assert(key_index(before, k) == i);
                let ghost old_recs = self.groups@[i as int].records@;
                self.groups[i].records.push(rec);
                assert(self.groups@[i as int].records@.map_values(|r: Record| r@) =~= old_recs.map_values(
                    |r: Record| r@,
                ).push(rv));
                assert(self@ =~= before.update(i as int, (k, before[i as int].1.push(rv))));
            },
            None => {
                let mut records: Vec<Record> = Vec::new();
                records.push(rec);
                let g = FormGroup { name, records };
                assert(g@.1 =~= seq![rv]);
                self.groups.push(g);
                assert(self@ =~= before.push((k, seq![rv])));
            },
        }
    }
}

impl ColumnSet {
    /// The position of the column named `name`, if there is one.
    fn find(&self, name: &String) -> (r: Option<usize>)
        ensures
            match r {
                Some(i) => i < self@.len() && self@[i as int].0 == name@,
                None => !has_key(self@, name@),
            },
    {
        let mut i: usize = 0;
        while i < self.columns.len()
            invariant
                i <= self.columns@.len(),
                forall|j: int| 0 <= j < i ==> #[trigger] self@[j].0 != name@,
            decreases self.columns@.len() - i,
        {
            if self.columns[i].name == *name {
                return Some(i);
            }
            i = i + 1;
        }
        None
    }

    /// Appends `value` to the column named `name`, starting the column where
    /// the name is new.
    fn add(&mut self, name: String, value: Scalar)
        requires
            keys_unique(old(self)@),
        ensures
            final(self)@ == append_to(old(self)@, name@, value@),
    {
        let ghost before = self@;
        let ghost k = name@;
        let ghost vv = value@;
        match self.find(&name) {
            Some(i) => {
                assert(key_index(before, k) == i);
                let ghost old_vals = self.columns@[i as int].values@;
                self.columns[i].values.push(value);
                assert(self.columns@[i as int].values@.map_values(|v: Scalar| v@) =~= old_vals.map_values(
                    |v: Scalar| v@,
                ).push(vv));
                assert(self@ =~= before.update(i as int, (k, before[i as int].1.push(vv))));
            },
            None => {
                let mut values: Vec<Scalar> = Vec::new();
                values.push(value);
                let c = Column { name, values };
                assert(c@.1 =~= seq![vv]);
                self.columns.push(c);
                assert(self@ =~= before.push((k, seq![vv])));
            },
        }
    }
}

proof fn lemma_columns_unique(forms: Seq<RawFormModel>, short_names: bool)
    ensures
        keys_unique(columns_spec(forms, short_names)),
    decreases forms.len(),
{
    if forms.len() > 0 {
        lemma_columns_unique(forms.drop_last(), short_names);
        lemma_add_fields_unique(columns_spec(forms.drop_last(), short_names), forms.last().1, short_names);
    }
}

proof fn lemma_add_fields_unique(c: ColumnSetModel, fields: Seq<RawFieldModel>, short_names: bool)
    requires
        keys_unique(c),
    ensures
        keys_unique(add_fields(c, fields, short_names)),
    decreases fields.len(),
{
    if fields.len() > 0 {
        lemma_add_fields_unique(c, fields.drop_last(), short_names);
        let c2 = add_fields(c, fields.drop_last(), short_names);
        let k = normalize_spec(fields.last().0, short_names);
        lemma_append_unique(c2, k, infer_spec(fields.last().1));
    }
}

/// Groups form occurrences by normalized form name, one record per
/// occurrence, in document order; a form whose name normalizes to nothing is
/// left out.
pub fn group_records(forms: &Vec<RawForm>, short_names: bool) -> (r: RecordSet)
    ensures
        r@ == records_spec(forms_view(forms@), short_names),
{
    let ghost fv = forms_view(forms@);
    let mut out = RecordSet { groups: Vec::new() };
    assert(out@ =~= records_spec(fv.subrange(0, 0), short_names));
    let mut i: usize = 0;
    while i < forms.len()
        invariant
            i <= forms@.len(),
            fv == forms_view(forms@),
            out@ == records_spec(fv.subrange(0, i as int), short_names),
        decreases forms@.len() - i,
    {
        let f = &forms[i];
        assert(fv.subrange(0, i + 1).drop_last() =~= fv.subrange(0, i as int));
        assert(fv.subrange(0, i + 1).last() == f@);
        proof {
            lemma_records_unique(fv.subrange(0, i as int), short_names);
        }
        let name = normalize(f.tag.as_str(), short_names);
        if !name.as_str().is_empty() {
            let rec = build_record(&f.fields, short_names);
            out.add(name, rec);
        }
        i = i + 1;
    }
    assert(fv.subrange(0, forms@.len() as int) =~= fv);
    out
}

/// Groups every field of every form, in document order, into the column of
/// its normalized key; a field whose key normalizes to nothing is left out.
/// Columns follow the whole document, not one form.
pub fn group_columns(forms: &Vec<RawForm>, short_names: bool) -> (r: ColumnSet)
    ensures
        r@ == columns_spec(forms_view(forms@), short_names),
{
    let ghost fv = forms_view(forms@);
    let mut out = ColumnSet { columns: Vec::new() };
    assert(out@ =~= columns_spec(fv.subrange(0, 0), short_names));
    let mut i: usize = 0;
    while i < forms.len()
        invariant
            i <= forms@.len(),
            fv == forms_view(forms@),
            out@ == columns_spec(fv.subrange(0, i as int), short_names),
        decreases forms@.len() - i,
    {
        let f = &forms[i];
        assert(fv.subrange(0, i + 1).drop_last() =~= fv.subrange(0, i as int));
        assert(fv.subrange(0, i + 1).last() == f@);
        proof {
            lemma_columns_unique(fv.subrange(0, i as int), short_names);
        }
        let ghost start = out@;
        let ghost ffv = f@.1;
        let mut j: usize = 0;
        while j < f.fields.len()
            invariant
                j <= f.fields@.len(),
                ffv == f.fields@.map_values(|x: RawField| x@),
                out@ == add_fields(start, ffv.subrange(0, j as int), short_names),
                keys_unique(start),
            decreases f.fields@.len() - j,
        {
            let x = &f.fields[j];
            assert(ffv.subrange(0, j + 1).drop_last() =~= ffv.subrange(0, j as int));
            assert(ffv.subrange(0, j + 1).last() == x@);
            proof {
                lemma_add_fields_unique(start, ffv.subrange(0, j as int), short_names);
            }
            let key = normalize(x.tag.as_str(), short_names);
            if !key.as_str().is_empty() {
                let value = match &x.text {
                    Some(t) => infer(Some(t.as_str())),
                    None => infer(None),
                };
                out.add(key, value);
            }
            j = j + 1;
        }
        assert(ffv.subrange(0, f.fields@.len() as int) =~= ffv);
        i = i + 1;
    }
    assert(fv.subrange(0, forms@.len() as int) =~= fv);
    out
}

/// A form whose name normalizes to nothing adds no group and no record, and
/// a field whose key normalizes to nothing adds nothing to its record or to
/// any column.
pub proof fn lemma_empty_tags_dropped(
    forms: Seq<RawFormModel>,
    form: RawFormModel,
    fields: Seq<RawFieldModel>,
    field: RawFieldModel,
    c: ColumnSetModel,
    short_names: bool,
)
    ensures
        normalize_spec(form.0, short_names).len() == 0 ==> records_spec(forms.push(form), short_names)
            == records_spec(forms, short_names),
        normalize_spec(field.0, short_names).len() == 0 ==> record_spec(fields.push(field), short_names)
            == record_spec(fields, short_names),
        normalize_spec(field.0, short_names).len() == 0 ==> add_fields(c, fields.push(field), short_names)
            == add_fields(c, fields, short_names),
{
    assert(forms.push(form).drop_last() =~= forms);
    assert(fields.push(field).drop_last() =~= fields);
}

} // verus!
