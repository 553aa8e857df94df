//! The oracle resolution pipeline.
//!
//! Given the tagged-name set and the record table, the pipeline selects
//! the tagged records, classifies every field's range bounds (a plain
//! integer literal resolves immediately; any other bound expression is
//! printed back to source text and registered for oracle evaluation,
//! with textually identical expressions collapsing to one key), and
//! synthesizes a minimal test program that makes the external simulator
//! print one `EXPR_<index>: <value>` line per distinct expression.  The
//! captured simulation output is then parsed and every registered
//! target back-patched with its key's single answer.

use vstd::prelude::*;

use crate::{VwError, VwErrorV};
use crate::ast::{VhdlExpr, VhdlLiteral};
use crate::mapping::{RecordData, RecordDataV, FieldDataV};
use crate::text::{
    dec_string, spec_dec, spec_eq_ignore_ascii_case, str_eq_ignore_ascii_case,
};
use crate::vhdl_printer::{expr_to_string, spec_expr_text};

verus! {

use vstd::string::StringExecFns;

/// Which side of a range constraint a resolution target names.
#[derive(Debug, Clone, Copy, PartialEq, Eq, Structural)]
pub enum Side {
    Left,
    Right,
}

/// One location awaiting an oracle answer: a side of a field of a
/// selected record.
#[derive(Debug, Clone, Copy, PartialEq, Eq, Structural)]
pub struct ConstraintId {
    pub record_index: usize,
    pub field_index: usize,
    pub side: Side,
}

/// A resolved (or still pending) pair of range bounds.
#[derive(Debug, Clone, Copy)]
pub struct ResolvedRange {
    pub left: Option<usize>,
    pub right: Option<usize>,
}

/// A field with its bounds resolved as far as classification got:
/// vector fields carry bounds, nested struct fields carry none.
#[derive(Debug)]
pub struct ResolvedField {
    pub name: String,
    pub bit_width: Option<ResolvedRange>,
    pub subtype_name: String,
}

/// A record with all field classifications.
#[derive(Debug)]
pub struct ResolvedRecord {
    pub name: String,
    pub fields: Vec<ResolvedField>,
}

/// The view of a [`ResolvedField`].
pub ghost struct ResolvedFieldV {
    pub name: Seq<char>,
    pub bit_width: Option<ResolvedRange>,
    pub subtype_name: Seq<char>,
}

/// The view of a [`ResolvedRecord`].
pub ghost struct ResolvedRecordV {
    pub name: Seq<char>,
    pub fields: Seq<ResolvedFieldV>,
}

impl View for ResolvedField {
    type V = ResolvedFieldV;

    open spec fn view(&self) -> ResolvedFieldV {
        ResolvedFieldV {
            name: self.name@,
            bit_width: self.bit_width,
            subtype_name: self.subtype_name@,
        }
    }
}

impl DeepView for ResolvedField {
    type V = ResolvedFieldV;

    open spec fn deep_view(&self) -> ResolvedFieldV {
        self.view()
    }
}

impl View for ResolvedRecord {
    type V = ResolvedRecordV;

    open spec fn view(&self) -> ResolvedRecordV {
        ResolvedRecordV { name: self.name@, fields: self.fields.deep_view() }
    }
}

impl DeepView for ResolvedRecord {
    type V = ResolvedRecordV;

    open spec fn deep_view(&self) -> ResolvedRecordV {
        self.view()
    }
}

impl Clone for ResolvedField {
    fn clone(&self) -> (res: Self)
        ensures
            res == *self,
    {
        ResolvedField {
            name: self.name.clone(),
            bit_width: self.bit_width,
            subtype_name: self.subtype_name.clone(),
        }
    }
}

impl Clone for ResolvedRecord {
    fn clone(&self) -> (res: Self)
        ensures
            res@ == (*self)@,
    {
        let mut fields: Vec<ResolvedField> = Vec::new();
        let mut i: usize = 0;
        proof {
            assert(fields@ =~= self.fields@.subrange(0, 0));
        }
        #[verifier::loop_isolation(false)]
        while i < self.fields.len()
            invariant
                i <= self.fields@.len(),
                fields@ =~= self.fields@.subrange(0, i as int),
            decreases self.fields@.len() - i,
        {
            fields.push(self.fields[i].clone());
            proof {
                assert(fields@ =~= self.fields@.subrange(0, i + 1));
            }
            i = i + 1;
        }
        proof {
            assert(self.fields@.subrange(0, self.fields@.len() as int) =~= self.fields@);
        }
        let res = ResolvedRecord { name: self.name.clone(), fields };
        proof {
            assert(res.fields.deep_view() =~= self.fields.deep_view());
        }
        res
    }
}

impl ResolvedField {
    /// A field with the given name, subtype name and pending bounds.
    pub fn new(name: &str, subtype: &str, bitwidth: Option<ResolvedRange>) -> (r: Self)
        ensures
            r@ == (ResolvedFieldV { name: name@, bit_width: bitwidth, subtype_name: subtype@ }),
    {
        ResolvedField { name: name.to_owned(), bit_width: bitwidth, subtype_name: subtype.to_owned() }
    }
}

impl ResolvedRecord {
    /// A record with the given name and no fields yet.
    pub fn new(name: &str) -> (r: Self)
        ensures
            r@.name == name@,
            r@.fields =~= Seq::<ResolvedFieldV>::empty(),
    {
        let r = ResolvedRecord { name: name.to_owned(), fields: Vec::new() };
        proof {
            assert(r.fields.deep_view() =~= Seq::<ResolvedFieldV>::empty());
        }
        r
    }
}

/// One distinct expression key with every target registered under it.
#[derive(Debug)]
pub struct ExprEntry {
    pub key: String,
    pub targets: Vec<ConstraintId>,
}

/// The view of an [`ExprEntry`].
pub ghost struct ExprEntryV {
    pub key: Seq<char>,
    pub targets: Seq<ConstraintId>,
}

impl View for ExprEntry {
    type V = ExprEntryV;

    open spec fn view(&self) -> ExprEntryV {
        ExprEntryV { key: self.key@, targets: self.targets@ }
    }
}

impl DeepView for ExprEntry {
    type V = ExprEntryV;

    open spec fn deep_view(&self) -> ExprEntryV {
        self.view()
    }
}

/// The deduplication table: distinct expression keys in first-occurrence
/// order, each with its registered resolution targets.
#[derive(Debug)]
pub struct ExprTable {
    pub entries: Vec<ExprEntry>,
}

impl View for ExprTable {
    type V = Seq<ExprEntryV>;

    open spec fn view(&self) -> Seq<ExprEntryV> {
        self.entries.deep_view()
    }
}

/// The first table position holding the key, or `-1`.
pub open spec fn table_find(t: Seq<ExprEntryV>, key: Seq<char>) -> int
    decreases t.len(),
{
    if t.len() == 0 {
        -1
    } else if t.first().key == key {
        0
    } else {
        let r = table_find(t.drop_first(), key);
        if r < 0 {
            -1
        } else {
            r + 1
        }
    }
}

/// `table_find` returns the first occurrence or `-1`.
pub proof fn lemma_table_find(t: Seq<ExprEntryV>, key: Seq<char>)
    ensures
        -1 <= table_find(t, key) < t.len(),
        table_find(t, key) >= 0 ==> t[table_find(t, key)].key == key,
        forall|m: int| 0 <= m < t.len() && #[trigger] t[m].key == key ==> 0 <= table_find(t, key)
            <= m,
    decreases t.len(),
{
    if t.len() == 0 {
    } else if t.first().key == key {
    } else {
        lemma_table_find(t.drop_first(), key);
        let u = t.drop_first();
        assert forall|m: int| 0 <= m < t.len() && #[trigger] t[m].key == key implies 0
            <= table_find(t, key) <= m by {
            assert(m != 0);
            assert(u[m - 1] == t[m]);
        }
    }
}

/// The table with one more target registered under the key: an existing
/// key gains a target, a new key is appended.
pub open spec fn table_register(t: Seq<ExprEntryV>, key: Seq<char>, id: ConstraintId) -> Seq<
    ExprEntryV,
> {
    let i = table_find(t, key);
    if i < 0 {
        t.push(ExprEntryV { key, targets: seq![id] })
    } else {
        t.update(i, ExprEntryV { key, targets: t[i].targets.push(id) })
    }
}

/// The keys of the table, in order.
pub open spec fn table_keys(t: Seq<ExprEntryV>) -> Seq<Seq<char>> {
    t.map_values(|e: ExprEntryV| e.key)
}

/// Whether the table's keys are pairwise distinct.
pub open spec fn table_keys_distinct(t: Seq<ExprEntryV>) -> bool {
    forall|i: int, j: int| 0 <= i < j < t.len() ==> t[i].key != t[j].key
}

/// Registering a target preserves key distinctness.
pub proof fn lemma_register_keeps_distinct(t: Seq<ExprEntryV>, key: Seq<char>, id: ConstraintId)
    requires
        table_keys_distinct(t),
    ensures
        table_keys_distinct(table_register(t, key, id)),
{
    lemma_table_find(t, key);
    let i = table_find(t, key);
    if i < 0 {
        let t2 = t.push(ExprEntryV { key, targets: seq![id] });
        assert forall|a: int, b: int| 0 <= a < b < t2.len() implies t2[a].key != t2[b].key by {
            if b == t.len() as int {
                assert(t2[b].key == key);
                assert(t2[a].key == t[a].key);
                if t[a].key == key {
                    assert(table_find(t, key) >= 0);
                }
            }
        }
    } else {
        let t2 = t.update(i, ExprEntryV { key, targets: t[i].targets.push(id) });
        assert(t[i].key == key);
        assert forall|a: int, b: int| 0 <= a < b < t2.len() implies t2[a].key != t2[b].key by {
            assert(t2[a].key == t[a].key);
            assert(t2[b].key == t[b].key);
        }
    }
}

impl ExprTable {
    /// An empty table.
    pub fn new() -> (r: Self)
        ensures
            r@ =~= Seq::<ExprEntryV>::empty(),
    {
        let r = ExprTable { entries: Vec::new() };
        proof {
            assert(r.entries.deep_view() =~= Seq::<ExprEntryV>::empty());
        }
        r
    }

    /// Register one target under a key, collapsing identical key text.
    #[verifier::loop_isolation(false)]
    pub fn register(&mut self, key: String, id: ConstraintId)
        ensures
            final(self)@ == table_register(old(self)@, key@, id),
    {
        proof {
            lemma_table_find(old(self)@, key@);
        }
        let ghost t0 = self@;
        let mut i: usize = 0;
        while i < self.entries.len()
            invariant
                *self == *old(self),
                t0 == self@,
                i <= self.entries.len(),
                forall|m: int| 0 <= m < i ==> t0[m].key != key@,
            decreases self.entries.len() - i,
        {
            if self.entries[i].key == key {
                proof {
                    assert(t0[i as int].key == key@);
                    assert(table_find(t0, key@) == i);
                }
                let entry = &mut self.entries[i];
                entry.targets.push(id);
                proof {
                    assert(self.entries.deep_view() =~= t0.update(
                        i as int,
                        ExprEntryV { key: key@, targets: t0[i as int].targets.push(id) },
                    ));
                }
                return ;
            }
            i = i + 1;
        }
        proof {
            assert(table_find(t0, key@) == -1) by {
                if table_find(t0, key@) >= 0 {
                    assert(t0[table_find(t0, key@)].key == key@);
                }
            }
        }
        let ghost old_entries = self.entries.deep_view();
        self.entries.push(ExprEntry { key, targets: vec![id] });
        proof {
            let e = self.entries[self.entries.len() - 1];
            assert(e.targets@ =~= seq![id]);
            assert(self.entries.deep_view() =~= t0.push(
                ExprEntryV { key: key@, targets: seq![id] },
            ));
        }
    }

    /// The expression keys, in the authoritative index order.
    #[verifier::loop_isolation(false)]
    pub fn keys(&self) -> (r: Vec<String>)
        ensures
            r.deep_view() =~= table_keys(self@),
    {
        let mut r: Vec<String> = Vec::new();
        let mut i: usize = 0;
        proof {
            assert(r.deep_view() =~= Seq::<Seq<char>>::empty());
        }
        while i < self.entries.len()
            invariant
                i <= self.entries.len(),
                r.deep_view() =~= table_keys(self@).subrange(0, i as int),
            decreases self.entries.len() - i,
        {
            let ghost before = r.deep_view();
            r.push(self.entries[i].key.clone());
            proof {
                assert(r.deep_view() =~= before.push(self.entries[i as int].key@));
                assert(r.deep_view() =~= table_keys(self@).subrange(0, i + 1));
            }
            i = i + 1;
        }
        proof {
            assert(table_keys(self@).subrange(0, self.entries@.len() as int) =~= table_keys(
                self@,
            ));
        }
        r
    }
}

/// Whether a subtype name is the vector kind, ignoring ASCII case.
pub open spec fn is_vector_name(s: Seq<char>) -> bool {
    spec_eq_ignore_ascii_case(s, "std_logic_vector"@)
}

/// Whether a subtype name is the scalar kind, ignoring ASCII case.
pub open spec fn is_scalar_name(s: Seq<char>) -> bool {
    spec_eq_ignore_ascii_case(s, "std_logic"@)
}

/// The value of a bound that is a plain integer literal, if it is one.
pub open spec fn spec_lit_usize(e: VhdlExpr) -> Option<usize> {
    match e {
        VhdlExpr::Literal(VhdlLiteral::Integer(v)) => Some(v as usize),
        _ => None,
    }
}

/// Whether a name occurs in the tagged-name set.
pub open spec fn seq_contains_name(tagged: Seq<Seq<char>>, name: Seq<char>) -> bool {
    exists|i: int| 0 <= i < tagged.len() && tagged[i] == name
}

/// The classification of one side of a range constraint: a literal
/// bound resolves immediately, anything else is registered for the
/// oracle under its printed text.
pub open spec fn spec_classify_side(
    rec_pos: usize,
    fld_pos: usize,
    side: Side,
    e: VhdlExpr,
    t: Seq<ExprEntryV>,
) -> (Option<usize>, Seq<ExprEntryV>) {
    match spec_lit_usize(e) {
        Some(v) => (Some(v), t),
        None => (
            None,
            table_register(
                t,
                spec_expr_text(e),
                ConstraintId { record_index: rec_pos, field_index: fld_pos, side },
            ),
        ),
    }
}

/// The classification of one field.
pub open spec fn spec_classify_field(
    rec_pos: usize,
    fld_pos: usize,
    f: FieldDataV,
    record_name: Seq<char>,
    tagged: Seq<Seq<char>>,
    t: Seq<ExprEntryV>,
) -> Result<(ResolvedFieldV, Seq<ExprEntryV>), VwErrorV> {
    if is_vector_name(f.subtype_name) {
        match f.constraint {
            None => Err(VwErrorV::UnconstrainedField { record: record_name, field: f.name }),
            Some(rc) => {
                let (left, t1) = spec_classify_side(rec_pos, fld_pos, Side::Left, rc.left_expr, t);
                let (right, t2) = spec_classify_side(
                    rec_pos,
                    fld_pos,
                    Side::Right,
                    rc.right_expr,
                    t1,
                );
                Ok(
                    (
                        ResolvedFieldV {
                            name: f.name,
                            bit_width: Some(ResolvedRange { left, right }),
                            subtype_name: f.subtype_name,
                        },
                        t2,
                    ),
                )
            },
        }
    } else if is_scalar_name(f.subtype_name) {
        Ok(
            (
                ResolvedFieldV {
                    name: f.name,
                    bit_width: Some(ResolvedRange { left: Some(0), right: Some(0) }),
                    subtype_name: f.subtype_name,
                },
                t,
            ),
        )
    } else if seq_contains_name(tagged, f.subtype_name) {
        Ok((ResolvedFieldV { name: f.name, bit_width: None, subtype_name: f.subtype_name }, t))
    } else {
        Err(VwErrorV::UntaggedSubtype { name: f.subtype_name })
    }
}

/// The classification of a record's field list, in order.
pub open spec fn spec_classify_fields(
    rec_pos: usize,
    fields: Seq<FieldDataV>,
    record_name: Seq<char>,
    tagged: Seq<Seq<char>>,
    t: Seq<ExprEntryV>,
) -> Result<(Seq<ResolvedFieldV>, Seq<ExprEntryV>), VwErrorV>
    decreases fields.len(),
{
    if fields.len() == 0 {
        Ok((Seq::empty(), t))
    } else {
        match spec_classify_fields(rec_pos, fields.drop_last(), record_name, tagged, t) {
            Ok((fs, t1)) => match spec_classify_field(
                rec_pos,
                (fields.len() - 1) as usize,
                fields.last(),
                record_name,
                tagged,
                t1,
            ) {
                Ok((f, t2)) => Ok((fs.push(f), t2)),
                Err(e) => Err(e),
            },
            Err(e) => Err(e),
        }
    }
}

/// The classification of the selected records, in order.
pub open spec fn spec_classify_records(
    sel: Seq<usize>,
    records: Seq<RecordDataV>,
    tagged: Seq<Seq<char>>,
    t: Seq<ExprEntryV>,
) -> Result<(Seq<ResolvedRecordV>, Seq<ExprEntryV>), VwErrorV>
    decreases sel.len(),
{
    if sel.len() == 0 {
        Ok((Seq::empty(), t))
    } else {
        match spec_classify_records(sel.drop_last(), records, tagged, t) {
            Ok((rs, t1)) => {
                let rec = records[sel.last() as int];
                match spec_classify_fields(
                    (sel.len() - 1) as usize,
                    rec.fields,
                    rec.name,
                    tagged,
                    t1,
                ) {
                    Ok((fs, t2)) => Ok((rs.push(ResolvedRecordV { name: rec.name, fields: fs }), t2)),
                    Err(e) => Err(e),
                }
            },
            Err(e) => Err(e),
        }
    }
}

/// The first record position with the given name, or `-1`.
pub open spec fn find_record(records: Seq<RecordDataV>, name: Seq<char>) -> int
    decreases records.len(),
{
    if records.len() == 0 {
        -1
    } else if records.first().name == name {
        0
    } else {
        let r = find_record(records.drop_first(), name);
        if r < 0 {
            -1
        } else {
            r + 1
        }
    }
}

/// `find_record` returns the first occurrence or `-1`.
pub proof fn lemma_find_record(records: Seq<RecordDataV>, name: Seq<char>)
    ensures
        -1 <= find_record(records, name) < records.len(),
        find_record(records, name) >= 0 ==> records[find_record(records, name)].name == name,
        forall|m: int|
            0 <= m < records.len() && #[trigger] records[m].name == name ==> 0 <= find_record(
                records,
                name,
            ) <= m,
    decreases records.len(),
{
    if records.len() == 0 {
    } else if records.first().name == name {
    } else {
        lemma_find_record(records.drop_first(), name);
        let u = records.drop_first();
        assert forall|m: int| 0 <= m < records.len() && #[trigger] records[m].name == name implies 0
            <= find_record(records, name) <= m by {
            assert(m != 0);
            assert(u[m - 1] == records[m]);
        }
    }
}

/// The selection result: positions of the tagged records in the record
/// table, and the packages they are declared in.
pub ghost struct SelV {
    pub indices: Seq<usize>,
    pub packages: Seq<Seq<char>>,
}

/// The selection of the tagged records, in tagged-name order: a missing
/// name or a record outside any package is a fatal usage error.
pub open spec fn spec_select(tagged: Seq<Seq<char>>, records: Seq<RecordDataV>) -> Result<
    SelV,
    VwErrorV,
>
    decreases tagged.len(),
{
    if tagged.len() == 0 {
        Ok(SelV { indices: Seq::empty(), packages: Seq::empty() })
    } else {
        match spec_select(tagged.drop_last(), records) {
            Ok(sel) => {
                let name = tagged.last();
                let i = find_record(records, name);
                if i < 0 {
                    Err(VwErrorV::UnknownTaggedType { name })
                } else {
                    match records[i].pkg_name {
                        None => Err(VwErrorV::NotInPackage { record: records[i].name }),
                        Some(p) => Ok(
                            SelV {
                                indices: sel.indices.push(i as usize),
                                packages: sel.packages.push(p),
                            },
                        ),
                    }
                }
            },
            Err(e) => Err(e),
        }
    }
}


/// Bounds proved for every selected index.
pub proof fn lemma_select_indices_bounded(tagged: Seq<Seq<char>>, records: Seq<RecordDataV>)
    requires
        spec_select(tagged, records) is Ok,
    ensures
        forall|k: int|
            0 <= k < spec_select(tagged, records)->Ok_0.indices.len()
                ==> (#[trigger] spec_select(tagged, records)->Ok_0.indices[k]) < records.len(),
    decreases tagged.len(),
{
    if tagged.len() == 0 {
    } else {
        lemma_select_indices_bounded(tagged.drop_last(), records);
        lemma_find_record(records, tagged.last());
    }
}


/// If a tagged-name prefix selects cleanly and the next name fails, the
/// whole selection fails with that name's error.
proof fn lemma_select_error(tagged: Seq<Seq<char>>, records: Seq<RecordDataV>, k: int)
    requires
        0 <= k < tagged.len(),
        spec_select(tagged.subrange(0, k), records) is Ok,
        ({
            let i = find_record(records, tagged[k]);
            i < 0 || records[i].pkg_name is None
        }),
    ensures
        spec_select(tagged, records) == Err::<SelV, VwErrorV>(
            {
                let i = find_record(records, tagged[k]);
                if i < 0 {
                    VwErrorV::UnknownTaggedType { name: tagged[k] }
                } else {
                    VwErrorV::NotInPackage { record: records[i].name }
                }
            },
        ),
    decreases tagged.len(),
{
    if k == tagged.len() - 1 {
        assert(tagged.subrange(0, k) =~= tagged.drop_last());
        assert(tagged.last() == tagged[k]);
    } else {
        assert(tagged.drop_last().subrange(0, k) =~= tagged.subrange(0, k));
        assert(tagged.drop_last()[k] == tagged[k]);
        lemma_select_error(tagged.drop_last(), records, k);
    }
}

/// Find the position of a record by name.
fn find_record_exec(records: &Vec<RecordData>, name: &String) -> (r: Option<usize>)
    ensures
        ({
            let fr = find_record(records.deep_view(), name@);
            match r {
                Some(i) => fr == i && i < records@.len(),
                None => fr == -1,
            }
        }),
{
    let ghost dv = records.deep_view();
    proof {
        lemma_find_record(dv, name@);
    }
    let mut i: usize = 0;
    #[verifier::loop_isolation(false)]
    while i < records.len()
        invariant
            i <= records@.len(),
            forall|m: int| 0 <= m < i ==> dv[m].name != name@,
        decreases records@.len() - i,
    {
        if records[i].name_is(name) {
            proof {
                assert(dv[i as int].name == name@);
            }
            return Some(i);
        }
        i = i + 1;
    }
    proof {
        if find_record(dv, name@) >= 0 {
            assert(dv[find_record(dv, name@)].name == name@);
        }
    }
    None
}

/// Whether the tagged-name set holds the given name.
fn contains_name(tagged: &Vec<String>, name: &String) -> (r: bool)
    ensures
        r == seq_contains_name(tagged.deep_view(), name@),
{
    let ghost dv = tagged.deep_view();
    let mut i: usize = 0;
    #[verifier::loop_isolation(false)]
    while i < tagged.len()
        invariant
            i <= tagged@.len(),
            forall|m: int| 0 <= m < i ==> dv[m] != name@,
        decreases tagged@.len() - i,
    {
        if tagged[i] == *name {
            proof {
                assert(dv[i as int] == name@);
            }
            return true;
        }
        i = i + 1;
    }
    false
}

/// Select the tagged records in tagged-name order, collecting the
/// packages the synthesized program must import.
fn select_tagged(tagged: &Vec<String>, records: &Vec<RecordData>) -> (r: Result<
    (Vec<usize>, Vec<String>),
    VwError,
>)
    ensures
        match spec_select(tagged.deep_view(), records.deep_view()) {
            Ok(sel) => r is Ok && r->Ok_0.0@ == sel.indices && r->Ok_0.1.deep_view()
                == sel.packages,
            Err(ev) => r is Err && r->Err_0@ == ev,
        },
{
    let ghost taggedv = tagged.deep_view();
    let ghost recordsv = records.deep_view();
    let mut indices: Vec<usize> = Vec::new();
    let mut packages: Vec<String> = Vec::new();
    proof {
        assert(taggedv.subrange(0, 0) =~= Seq::<Seq<char>>::empty());
        assert(indices@ =~= Seq::<usize>::empty());
        assert(packages.deep_view() =~= Seq::<Seq<char>>::empty());
    }
    let mut k: usize = 0;
    #[verifier::loop_isolation(false)]
    while k < tagged.len()
        invariant
            k <= tagged@.len(),
            spec_select(taggedv.subrange(0, k as int), recordsv) == Ok::<SelV, VwErrorV>(
                SelV { indices: indices@, packages: packages.deep_view() },
            ),
        decreases tagged@.len() - k,
    {
        proof {
            assert(taggedv.subrange(0, k + 1).drop_last() =~= taggedv.subrange(0, k as int));
            assert(taggedv.subrange(0, k + 1).last() == taggedv[k as int]);
        }
        match find_record_exec(records, &tagged[k]) {
            None => {
                proof {
                    lemma_select_error(taggedv, recordsv, k as int);
                }
                return Err(VwError::UnknownTaggedType { name: tagged[k].clone() });
            },
            Some(i) => {
                let rec = &records[i];
                match rec.get_pkg_name() {
                    None => {
                        let name = rec.get_name().to_owned();
                        proof {
                            assert(recordsv[i as int].pkg_name is None);
                            lemma_select_error(taggedv, recordsv, k as int);
                        }
                        return Err(VwError::NotInPackage { record: name });
                    },
                    Some(p) => {
                        indices.push(i);
                        let ghost packs = packages.deep_view();
                        packages.push(p.clone());
                        proof {
                            assert(packages.deep_view() =~= packs.push(p@));
                            assert(recordsv[i as int].pkg_name == Some(p@));
                        }
                    },
                }
            },
        }
        k = k + 1;
    }
    proof {
        assert(taggedv.subrange(0, taggedv.len() as int) =~= taggedv);
    }
    Ok((indices, packages))
}

/// Classify one side of a range constraint.
fn classify_side(
    rec_pos: usize,
    fld_pos: usize,
    side: Side,
    e: &VhdlExpr,
    table: &mut ExprTable,
) -> (r: Option<usize>)
    ensures
        ({
            let (sv, tv) = spec_classify_side(rec_pos, fld_pos, side, *e, old(table)@);
            r == sv && final(table)@ == tv
        }),
{
    match e {
        VhdlExpr::Literal(VhdlLiteral::Integer(v)) => Some(*v as usize),
        _ => {
            let text = expr_to_string(e);
            table.register(
                text,
                ConstraintId { record_index: rec_pos, field_index: fld_pos, side },
            );
            None
        },
    }
}

/// Classify one field of a selected record.
fn classify_field(
    rec_pos: usize,
    fld_pos: usize,
    f: &crate::mapping::FieldData,
    record_name: &String,
    tagged: &Vec<String>,
    table: &mut ExprTable,
) -> (r: Result<ResolvedField, VwError>)
    ensures
        match spec_classify_field(
            rec_pos,
            fld_pos,
            f@,
            record_name@,
            tagged.deep_view(),
            old(table)@,
        ) {
            Ok((fv, tv)) => r is Ok && r->Ok_0@ == fv && final(table)@ == tv,
            Err(ev) => r is Err && r->Err_0@ == ev && final(table)@ == old(table)@,
        },
{
    if str_eq_ignore_ascii_case(f.subtype_name.as_str(), "std_logic_vector") {
        match &f.constraint {
            None => Err(
                VwError::UnconstrainedField {
                    record: record_name.clone(),
                    field: f.name.clone(),
                },
            ),
            Some(rc) => {
                let left = classify_side(rec_pos, fld_pos, Side::Left, &rc.left_expr, table);
                let right = classify_side(rec_pos, fld_pos, Side::Right, &rc.right_expr, table);
                Ok(
                    ResolvedField::new(
                        f.name.as_str(),
                        f.subtype_name.as_str(),
                        Some(ResolvedRange { left, right }),
                    ),
                )
            },
        }
    } else if str_eq_ignore_ascii_case(f.subtype_name.as_str(), "std_logic") {
        Ok(
            ResolvedField::new(
                f.name.as_str(),
                f.subtype_name.as_str(),
                Some(ResolvedRange { left: Some(0), right: Some(0) }),
            ),
        )
    } else if contains_name(tagged, &f.subtype_name) {
        Ok(ResolvedField::new(f.name.as_str(), f.subtype_name.as_str(), None))
    } else {
        Err(VwError::UntaggedSubtype { name: f.subtype_name.clone() })
    }
}

/// Classify every field of one selected record.
fn classify_record_fields(
    rec_pos: usize,
    rec: &RecordData,
    tagged: &Vec<String>,
    table: &mut ExprTable,
) -> (r: Result<ResolvedRecord, VwError>)
    ensures
        match spec_classify_fields(
            rec_pos,
            rec@.fields,
            rec@.name,
            tagged.deep_view(),
            old(table)@,
        ) {
            Ok((fs, tv)) => r is Ok && r->Ok_0@ == (ResolvedRecordV { name: rec@.name, fields: fs })
                && final(table)@ == tv,
            Err(ev) => r is Err && r->Err_0@ == ev,
        },
{
    let ghost fieldsv = rec@.fields;
    let ghost t0 = table@;
    let record_name = rec.get_name().to_owned();
    let mut out = ResolvedRecord::new(rec.get_name());
    let fields = rec.get_fields();
    proof {
        assert(fieldsv.subrange(0, 0) =~= Seq::<FieldDataV>::empty());
    }
    let mut j: usize = 0;
    #[verifier::loop_isolation(false)]
    while j < fields.len()
        invariant
            j <= fieldsv.len(),
            fields.deep_view() == fieldsv,
            fields@.len() == fieldsv.len(),
            out@.name == rec@.name,
            spec_classify_fields(rec_pos, fieldsv.subrange(0, j as int), rec@.name,
                tagged.deep_view(), t0) == Ok::<_, VwErrorV>((out@.fields, table@)),
        decreases fieldsv.len() - j,
    {
        proof {
            assert(fieldsv.subrange(0, j + 1).drop_last() =~= fieldsv.subrange(0, j as int));
            assert(fieldsv.subrange(0, j + 1).last() == fieldsv[j as int]);
            assert(fields@[j as int]@ == fieldsv[j as int]);
        }
        match classify_field(rec_pos, j, &fields[j], &record_name, tagged, table) {
            Ok(f) => {
                let ghost fsv = out.fields.deep_view();
                out.fields.push(f);
                proof {
                    assert(out.fields.deep_view() =~= fsv.push(f@));
                }
            },
            Err(e) => {
                proof {
                    lemma_classify_fields_error(
                        rec_pos,
                        fieldsv,
                        j as int,
                        rec@.name,
                        tagged.deep_view(),
                        t0,
                        table@,
                        out@.fields,
                    );
                }
                return Err(e);
            },
        }
        j = j + 1;
    }
    proof {
        assert(fieldsv.subrange(0, fieldsv.len() as int) =~= fieldsv);
    }
    Ok(out)
}

/// If a field prefix classifies cleanly and the next field fails, the
/// whole list fails with that field's error.
proof fn lemma_classify_fields_error(
    rec_pos: usize,
    fields: Seq<FieldDataV>,
    j: int,
    record_name: Seq<char>,
    tagged: Seq<Seq<char>>,
    t0: Seq<ExprEntryV>,
    tj: Seq<ExprEntryV>,
    fs: Seq<ResolvedFieldV>,
)
    requires
        0 <= j < fields.len(),
        spec_classify_fields(rec_pos, fields.subrange(0, j), record_name, tagged, t0) == Ok::<
            _,
            VwErrorV,
        >((fs, tj)),
        spec_classify_field(rec_pos, j as usize, fields[j], record_name, tagged, tj) is Err,
    ensures
        spec_classify_fields(rec_pos, fields, record_name, tagged, t0) == Err::<
            (Seq<ResolvedFieldV>, Seq<ExprEntryV>),
            VwErrorV,
        >(spec_classify_field(rec_pos, j as usize, fields[j], record_name, tagged, tj)->Err_0),
    decreases fields.len(),
{
    if j == fields.len() - 1 {
        assert(fields.subrange(0, j) =~= fields.drop_last());
        assert(fields.last() == fields[j]);
    } else {
        assert(fields.drop_last().subrange(0, j) =~= fields.subrange(0, j));
        assert(fields.drop_last()[j] == fields[j]);
        lemma_classify_fields_error(
            rec_pos,
            fields.drop_last(),
            j,
            record_name,
            tagged,
            t0,
            tj,
            fs,
        );
    }
}


/// The fixed import header of the synthesized program.
pub open spec fn spec_imports_head() -> Seq<char> {
    "-- Required packages\nlibrary ieee;\nuse ieee.std_logic_1164.all;\nuse ieee.numeric_std.all;\n\nlibrary std;\nuse std.textio.all;\n"@
}

/// One `use work.<package>.all;` line per needed package, in order.
pub open spec fn spec_pkg_lines(pkgs: Seq<Seq<char>>) -> Seq<char>
    decreases pkgs.len(),
{
    if pkgs.len() == 0 {
        Seq::empty()
    } else {
        spec_pkg_lines(pkgs.drop_last()) + "use work."@ + pkgs.last() + ".all;\n"@
    }
}

/// The import block of the synthesized program.
pub open spec fn spec_testbench_imports(pkgs: Seq<Seq<char>>) -> Seq<char> {
    spec_imports_head() + spec_pkg_lines(pkgs)
}

/// The fixed entity/process head of the synthesized program.
pub open spec fn spec_tb_entity_head() -> Seq<char> {
    "entity constraint_evaluator is\nend entity constraint_evaluator;\n\narchitecture behavior of constraint_evaluator is\nbegin\n    process\n        variable l : line;\n    begin\n        wait for 0ns;\n"@
}

/// The fixed tail: suspend forever and close the architecture.
pub open spec fn spec_tb_foot() -> Seq<char> {
    "        wait;\n    end process;\nend architecture behavior;\n"@
}

/// The one evaluation statement of expression key number `i`.
pub open spec fn spec_expr_statement(i: nat, key: Seq<char>) -> Seq<char> {
    "\n        write(l, string'(\"EXPR_"@ + spec_dec(i) + ": \"));\n\n        write(l, integer'image("@
        + key + "));\n\n        writeline(OUTPUT, l);\n"@
}

/// The evaluation statements for all keys, in index order.
pub open spec fn spec_expr_statements(keys: Seq<Seq<char>>) -> Seq<char>
    decreases keys.len(),
{
    if keys.len() == 0 {
        Seq::empty()
    } else {
        spec_expr_statements(keys.drop_last()) + spec_expr_statement(
            (keys.len() - 1) as nat,
            keys.last(),
        )
    }
}

/// The whole synthesized oracle program.
pub open spec fn spec_testbench(keys: Seq<Seq<char>>, pkgs: Seq<Seq<char>>) -> Seq<char> {
    spec_testbench_imports(pkgs) + spec_tb_entity_head() + spec_expr_statements(keys)
        + spec_tb_foot()
}

/// Generate the package use statements for the synthesized program.
#[verifier::loop_isolation(false)]
pub fn generate_testbench_imports(packages_needed: &Vec<String>) -> (r: String)
    ensures
        r@ == spec_testbench_imports(packages_needed.deep_view()),
{
    let ghost pkgs = packages_needed.deep_view();
    let mut r =
        "-- Required packages\nlibrary ieee;\nuse ieee.std_logic_1164.all;\nuse ieee.numeric_std.all;\n\nlibrary std;\nuse std.textio.all;\n".to_owned();
    proof {
        assert(pkgs.subrange(0, 0) =~= Seq::<Seq<char>>::empty());
        assert(r@ =~= spec_imports_head() + spec_pkg_lines(pkgs.subrange(0, 0)));
    }
    let mut i: usize = 0;
    while i < packages_needed.len()
        invariant
            i <= pkgs.len(),
            r@ == spec_imports_head() + spec_pkg_lines(pkgs.subrange(0, i as int)),
        decreases pkgs.len() - i,
    {
        r.append("use work.");
        r.append(packages_needed[i].as_str());
        r.append(".all;\n");
        proof {
            assert(pkgs.subrange(0, i + 1).drop_last() =~= pkgs.subrange(0, i as int));
            assert(pkgs.subrange(0, i + 1).last() == pkgs[i as int]);
            assert(r@ =~= spec_imports_head() + spec_pkg_lines(pkgs.subrange(0, i + 1)));
        }
        i = i + 1;
    }
    proof {
        assert(pkgs.subrange(0, pkgs.len() as int) =~= pkgs);
    }
    r
}

/// Synthesize the oracle program: imports, a single process that prints
/// one `EXPR_<index>: <value>` line per distinct expression key, then
/// suspends indefinitely (the runner forces termination after the
/// writes flush at simulated time zero).
#[verifier::loop_isolation(false)]
pub fn create_testbench(exprs_to_resolve: &Vec<String>, packages_needed: &Vec<String>) -> (r:
    String)
    ensures
        r@ == spec_testbench(exprs_to_resolve.deep_view(), packages_needed.deep_view()),
{
    let ghost keys = exprs_to_resolve.deep_view();
    let ghost pkgs = packages_needed.deep_view();
    let mut r = generate_testbench_imports(packages_needed);
    r.append(
        "entity constraint_evaluator is\nend entity constraint_evaluator;\n\narchitecture behavior of constraint_evaluator is\nbegin\n    process\n        variable l : line;\n    begin\n        wait for 0ns;\n",
    );
    proof {
        assert(keys.subrange(0, 0) =~= Seq::<Seq<char>>::empty());
        assert(r@ =~= spec_testbench_imports(pkgs) + spec_tb_entity_head() + spec_expr_statements(
            keys.subrange(0, 0),
        ));
    }
    let mut i: usize = 0;
    while i < exprs_to_resolve.len()
        invariant
            i <= keys.len(),
            r@ == spec_testbench_imports(pkgs) + spec_tb_entity_head() + spec_expr_statements(
                keys.subrange(0, i as int),
            ),
        decreases keys.len() - i,
    {
        r.append("\n        write(l, string'(\"EXPR_");
        let n = dec_string(i);
        r.append(n.as_str());
        r.append(": \"));\n\n        write(l, integer'image(");
        r.append(exprs_to_resolve[i].as_str());
        r.append("));\n\n        writeline(OUTPUT, l);\n");
        proof {
            assert(keys.subrange(0, i + 1).drop_last() =~= keys.subrange(0, i as int));
            assert(keys.subrange(0, i + 1).last() == keys[i as int]);
            assert(r@ =~= spec_testbench_imports(pkgs) + spec_tb_entity_head()
                + spec_expr_statements(keys.subrange(0, i + 1)));
        }
        i = i + 1;
    }
    proof {
        assert(keys.subrange(0, keys.len() as int) =~= keys);
    }
    r.append("        wait;\n    end process;\nend architecture behavior;\n");
    proof {
        assert(r@ =~= spec_testbench(keys, pkgs));
    }
    r
}

/// Everything the pipeline computes before the simulator runs.
pub ghost struct PrepV {
    pub records: Seq<ResolvedRecordV>,
    pub table: Seq<ExprEntryV>,
    pub packages: Seq<Seq<char>>,
    pub testbench: Seq<char>,
}

/// The whole pre-oracle pipeline: selection, classification, and
/// synthesis of the oracle program from the distinct expression keys.
pub open spec fn spec_prepare(tagged: Seq<Seq<char>>, records: Seq<RecordDataV>) -> Result<
    PrepV,
    VwErrorV,
> {
    match spec_select(tagged, records) {
        Err(e) => Err(e),
        Ok(sel) => match spec_classify_records(sel.indices, records, tagged, Seq::empty()) {
            Err(e) => Err(e),
            Ok((rv, t)) => Ok(
                PrepV {
                    records: rv,
                    table: t,
                    packages: sel.packages,
                    testbench: spec_testbench(table_keys(t), sel.packages),
                },
            ),
        },
    }
}

/// A prepared oracle job: the classified records, the deduplication
/// table, the packages the synthesized program imports, and the
/// program's source text.
#[derive(Debug)]
pub struct OracleJob {
    pub records: Vec<ResolvedRecord>,
    pub table: ExprTable,
    pub packages: Vec<String>,
    pub testbench: String,
}

impl OracleJob {
    /// Whether the toolchain runner must be invoked at all: false
    /// exactly when every bound resolved without the oracle.
    pub fn needs_oracle(&self) -> (r: bool)
        ensures
            r == (self.table@.len() > 0),
    {
        self.table.entries.len() > 0
    }
}

/// Run selection and classification and synthesize the oracle program.
///
/// Fails with a usage error naming the offender when a tagged name has
/// no record, a tagged record is outside any package, a vector field
/// has no range constraint, or a field's subtype is neither scalar nor
/// vector nor tagged.  No simulator stage is involved yet.
#[verifier::loop_isolation(false)]
pub fn prepare_oracle_job(tagged_names: &Vec<String>, records: &Vec<RecordData>) -> (r: Result<
    OracleJob,
    VwError,
>)
    ensures
        match spec_prepare(tagged_names.deep_view(), records.deep_view()) {
            Ok(p) => r is Ok && ({
                let job = r->Ok_0;
                &&& job.records.deep_view() == p.records
                &&& job.table@ == p.table
                &&& job.packages.deep_view() == p.packages
                &&& job.testbench@ == p.testbench
            }),
            Err(ev) => r is Err && r->Err_0@ == ev,
        },
        r is Ok ==> table_keys_distinct(r->Ok_0.table@) && table_targets_wf(
            r->Ok_0.table@,
            r->Ok_0.records.deep_view(),
        ),
{
    proof {
        let taggedg = tagged_names.deep_view();
        let recordsg = records.deep_view();
        if spec_prepare(taggedg, recordsg) is Ok {
            assert(taggedg.len() == tagged_names@.len());
            assert(tagged_names.len() == tagged_names@.len());
            assert forall|m: int|
                0 <= m < recordsg.len() implies (#[trigger] recordsg[m]).fields.len()
                <= usize::MAX by {
                crate::mapping::lemma_record_fields_fit(records@[m]);
            }
            lemma_prepare_dedup_and_wf(taggedg, recordsg);
        }
    }
    let ghost taggedv = tagged_names.deep_view();
    let ghost recordsv = records.deep_view();
    let (indices, packages) = match select_tagged(tagged_names, records) {
        Ok(sp) => sp,
        Err(e) => {
            return Err(e);
        },
    };
    proof {
        lemma_select_indices_bounded(taggedv, recordsv);
    }
    let mut table = ExprTable::new();
    let mut out: Vec<ResolvedRecord> = Vec::new();
    proof {
        assert(out.deep_view() =~= Seq::<ResolvedRecordV>::empty());
        assert(indices@.subrange(0, 0) =~= Seq::<usize>::empty());
    }
    let mut k: usize = 0;
    while k < indices.len()
        invariant
            k <= indices@.len(),
            spec_classify_records(indices@.subrange(0, k as int), recordsv, taggedv,
                Seq::<ExprEntryV>::empty()) == Ok::<_, VwErrorV>((out.deep_view(), table@)),
        decreases indices@.len() - k,
    {
        proof {
            assert(indices@.subrange(0, k + 1).drop_last() =~= indices@.subrange(0, k as int));
            assert(indices@.subrange(0, k + 1).last() == indices@[k as int]);
        }
        let idx = indices[k];
        let rec = &records[idx];
        let ghost t_at_k = table@;
        let ghost out_at_k = out.deep_view();
        proof {
            assert(rec@ == recordsv[idx as int]);
        }
        match classify_record_fields(k, rec, tagged_names, &mut table) {
            Ok(rr) => {
                let ghost outv = out.deep_view();
                out.push(rr);
                proof {
                    assert(out.deep_view() =~= outv.push(rr@));
                }
            },
            Err(e) => {
                proof {
                    lemma_classify_records_error(
                        indices@,
                        k as int,
                        recordsv,
                        taggedv,
                        t_at_k,
                        out_at_k,
                    );
                }
                return Err(e);
            },
        }
        k = k + 1;
    }
    proof {
        assert(indices@.subrange(0, indices@.len() as int) =~= indices@);
    }
    let keys = table.keys();
    let testbench = create_testbench(&keys, &packages);
    Ok(OracleJob { records: out, table, packages, testbench })
}

/// If a selected-record prefix classifies cleanly and the next record
/// fails, the whole classification fails with that record's error.
proof fn lemma_classify_records_error(
    sel: Seq<usize>,
    k: int,
    records: Seq<RecordDataV>,
    tagged: Seq<Seq<char>>,
    tk: Seq<ExprEntryV>,
    rs: Seq<ResolvedRecordV>,
)
    requires
        0 <= k < sel.len(),
        spec_classify_records(sel.subrange(0, k), records, tagged, Seq::empty()) == Ok::<
            _,
            VwErrorV,
        >((rs, tk)),
        ({
            let rec = records[sel[k] as int];
            spec_classify_fields(k as usize, rec.fields, rec.name, tagged, tk) is Err
        }),
    ensures
        spec_classify_records(sel, records, tagged, Seq::empty()) == Err::<
            (Seq<ResolvedRecordV>, Seq<ExprEntryV>),
            VwErrorV,
        >(
            {
                let rec = records[sel[k] as int];
                spec_classify_fields(k as usize, rec.fields, rec.name, tagged, tk)->Err_0
            },
        ),
    decreases sel.len(),
{
    if k == sel.len() - 1 {
        assert(sel.subrange(0, k) =~= sel.drop_last());
        assert(sel.last() == sel[k]);
    } else {
        assert(sel.drop_last().subrange(0, k) =~= sel.subrange(0, k));
        assert(sel.drop_last()[k] == sel[k]);
        lemma_classify_records_error(sel.drop_last(), k, records, tagged, tk, rs);
    }
}


/// Whether every registered target points at an in-bounds vector field
/// (one whose classification produced a bounds pair).
pub open spec fn target_ok(id: ConstraintId, recs: Seq<ResolvedRecordV>) -> bool {
    &&& id.record_index < recs.len()
    &&& id.field_index < recs[id.record_index as int].fields.len()
    &&& recs[id.record_index as int].fields[id.field_index as int].bit_width is Some
}

/// Well-formedness of a table against the classified records.
pub open spec fn table_targets_wf(t: Seq<ExprEntryV>, recs: Seq<ResolvedRecordV>) -> bool {
    forall|i: int, j: int|
        0 <= i < t.len() && 0 <= j < t[i].targets.len() ==> target_ok(
            #[trigger] t[i].targets[j],
            recs,
        )
}

/// The records with one answer applied to one target's side.
pub open spec fn spec_apply_target(
    recs: Seq<ResolvedRecordV>,
    id: ConstraintId,
    value: usize,
) -> Seq<ResolvedRecordV> {
    let rec = recs[id.record_index as int];
    let f = rec.fields[id.field_index as int];
    let rng = match f.bit_width {
        Some(rr) => rr,
        None => ResolvedRange { left: None, right: None },
    };
    let rng2 = match id.side {
        Side::Left => ResolvedRange { left: Some(value), right: rng.right },
        Side::Right => ResolvedRange { left: rng.left, right: Some(value) },
    };
    recs.update(
        id.record_index as int,
        ResolvedRecordV {
            name: rec.name,
            fields: rec.fields.update(
                id.field_index as int,
                ResolvedFieldV {
                    name: f.name,
                    bit_width: Some(rng2),
                    subtype_name: f.subtype_name,
                },
            ),
        },
    )
}

/// The records with one answer applied to every target of one key.
pub open spec fn spec_apply_targets(
    recs: Seq<ResolvedRecordV>,
    ids: Seq<ConstraintId>,
    value: usize,
) -> Seq<ResolvedRecordV>
    decreases ids.len(),
{
    if ids.len() == 0 {
        recs
    } else {
        spec_apply_target(spec_apply_targets(recs, ids.drop_last(), value), ids.last(), value)
    }
}

/// Whether two classified record lists have the same skeleton: same
/// record and field names, same subtypes, and bounds pairs in the same
/// places (only the bounds' contents may differ).
pub open spec fn same_shape(a: Seq<ResolvedRecordV>, b: Seq<ResolvedRecordV>) -> bool {
    &&& b.len() == a.len()
    &&& forall|i: int|
        0 <= i < a.len() ==> {
            &&& (#[trigger] b[i]).name == a[i].name
            &&& b[i].fields.len() == a[i].fields.len()
            &&& forall|j: int|
                0 <= j < a[i].fields.len() ==> {
                    &&& (#[trigger] b[i].fields[j]).name == a[i].fields[j].name
                    &&& b[i].fields[j].subtype_name == a[i].fields[j].subtype_name
                    &&& (b[i].fields[j].bit_width is Some <==> a[i].fields[j].bit_width is Some)
                }
        }
}

/// Applying an answer to a valid target keeps the skeleton.
pub proof fn lemma_apply_target_shape(recs: Seq<ResolvedRecordV>, id: ConstraintId, value: usize)
    requires
        target_ok(id, recs),
    ensures
        same_shape(recs, spec_apply_target(recs, id, value)),
{
}

/// Applying an answer to valid targets keeps the skeleton.
pub proof fn lemma_apply_targets_shape(
    recs: Seq<ResolvedRecordV>,
    ids: Seq<ConstraintId>,
    value: usize,
)
    requires
        forall|j: int| 0 <= j < ids.len() ==> target_ok(#[trigger] ids[j], recs),
    ensures
        same_shape(recs, spec_apply_targets(recs, ids, value)),
    decreases ids.len(),
{
    if ids.len() > 0 {
        lemma_apply_targets_shape(recs, ids.drop_last(), value);
        let mid = spec_apply_targets(recs, ids.drop_last(), value);
        assert(target_ok(ids.last(), recs));
        assert(target_ok(ids.last(), mid));
        lemma_apply_target_shape(mid, ids.last(), value);
    }
}

/// A target valid against one skeleton is valid against any equal one.
pub proof fn lemma_shape_keeps_wf(
    t: Seq<ExprEntryV>,
    a: Seq<ResolvedRecordV>,
    b: Seq<ResolvedRecordV>,
)
    requires
        table_targets_wf(t, a),
        same_shape(a, b),
    ensures
        table_targets_wf(t, b),
{
    assert forall|i: int, j: int|
        0 <= i < t.len() && 0 <= j < t[i].targets.len() implies target_ok(
        #[trigger] t[i].targets[j],
        b,
    ) by {
        assert(target_ok(t[i].targets[j], a));
    }
}

/// The first position of a `": "` separator, or `-1`.
pub open spec fn find_colon_space(l: Seq<u8>) -> int
    decreases l.len(),
{
    if l.len() < 2 {
        -1
    } else if l[0] == 58 && l[1] == 32 {
        0
    } else {
        let r = find_colon_space(l.drop_first());
        if r < 0 {
            -1
        } else {
            r + 1
        }
    }
}

/// `find_colon_space` returns the first occurrence or `-1`.
pub proof fn lemma_find_colon_space(l: Seq<u8>)
    ensures
        -1 <= find_colon_space(l),
        find_colon_space(l) >= 0 ==> find_colon_space(l) + 1 < l.len() && l[find_colon_space(l)]
            == 58 && l[find_colon_space(l) + 1] == 32,
        forall|m: int|
            0 <= m && m + 1 < l.len() && (#[trigger] l[m]) == 58 && l[m + 1] == 32 ==> 0
                <= find_colon_space(l) <= m,
    decreases l.len(),
{
    if l.len() < 2 {
    } else if l[0] == 58 && l[1] == 32 {
    } else {
        lemma_find_colon_space(l.drop_first());
        let u = l.drop_first();
        assert forall|m: int|
            0 <= m && m + 1 < l.len() && (#[trigger] l[m]) == 58 && l[m + 1] == 32 implies 0
            <= find_colon_space(l) <= m by {
            assert(m != 0);
            assert(u[m - 1] == l[m] && u[m] == l[m + 1]);
        }
    }
}

/// The parse of one captured output line: `EXPR_<index>: <value>` with
/// both numbers in machine range, or nothing.
pub open spec fn spec_parse_line(l: Seq<u8>) -> Option<(usize, usize)> {
    let c = find_colon_space(l);
    if c < 0 {
        None
    } else {
        let prefix = l.subrange(0, c);
        let rest = l.subrange(c + 2, l.len() as int);
        if prefix.len() < 6 {
            None
        } else if !(prefix[0] == 69 && prefix[1] == 88 && prefix[2] == 80 && prefix[3] == 82
            && prefix[4] == 95) {
            None
        } else {
            let digits = prefix.subrange(5, prefix.len() as int);
            if crate::text::all_dec_digits(digits) && crate::text::dec_value(digits)
                <= usize::MAX && rest.len() > 0 && crate::text::all_dec_digits(rest)
                && crate::text::dec_value(rest) <= usize::MAX {
                Some(
                    (
                        crate::text::dec_value(digits) as usize,
                        crate::text::dec_value(rest) as usize,
                    ),
                )
            } else {
                None
            }
        }
    }
}

/// The records after all captured output lines are applied, or the
/// first internal-consistency error: an unparseable line, or an index
/// no synthesized statement carried.
pub open spec fn spec_process_lines(
    t: Seq<ExprEntryV>,
    recs: Seq<ResolvedRecordV>,
    lines: Seq<Seq<u8>>,
    base: nat,
) -> Result<Seq<ResolvedRecordV>, VwErrorV>
    decreases lines.len(),
{
    if lines.len() == 0 {
        Ok(recs)
    } else {
        match spec_parse_line(lines.first()) {
            None => Err(VwErrorV::MalformedOracleLine { line_index: base as usize }),
            Some((idx, value)) => {
                if idx >= t.len() {
                    Err(VwErrorV::OracleIndexOutOfRange { index: idx })
                } else {
                    spec_process_lines(
                        t,
                        spec_apply_targets(recs, t[idx as int].targets, value),
                        lines.drop_first(),
                        base + 1,
                    )
                }
            },
        }
    }
}

/// Find the first `": "` separator of `v[start .. end]`.
fn find_cs_from(v: &Vec<u8>, start: usize, end: usize) -> (r: Option<usize>)
    requires
        start <= end <= v@.len(),
    ensures
        ({
            let l = v@.subrange(start as int, end as int);
            match r {
                Some(k) => start <= k && k + 1 < end && v@[k as int] == 58 && v@[k + 1] == 32
                    && find_colon_space(l) == k - start,
                None => find_colon_space(l) == -1,
            }
        }),
{
    let ghost l = v@.subrange(start as int, end as int);
    proof {
        lemma_find_colon_space(l);
    }
    if end - start < 2 {
        return None;
    }
    let mut k: usize = start;
    #[verifier::loop_isolation(false)]
    while k < end - 1
        invariant
            start <= k <= end,
            forall|m: int| 0 <= m < k - start ==> !((#[trigger] l[m]) == 58 && m + 1 < l.len()
                && l[m + 1] == 32),
        decreases end - k,
    {
        if v[k] == 58 && v[k + 1] == 32 {
            proof {
                assert(l[k - start] == 58 && l[k - start + 1] == 32);
            }
            return Some(k);
        }
        proof {
            assert(l[k - start] == v@[k as int] && l[k - start + 1] == v@[k + 1]);
        }
        k = k + 1;
    }
    proof {
        if find_colon_space(l) >= 0 {
            let f = find_colon_space(l);
            assert(l[f] == 58 && l[f + 1] == 32);
        }
    }
    None
}

/// Parse one line of captured output held in `v[start .. end]`.
fn parse_line(v: &Vec<u8>, start: usize, end: usize) -> (r: Option<(usize, usize)>)
    requires
        start <= end <= v@.len(),
    ensures
        r == spec_parse_line(v@.subrange(start as int, end as int)),
{
    let ghost l = v@.subrange(start as int, end as int);
    let cs = match find_cs_from(v, start, end) {
        None => {
            return None;
        },
        Some(k) => k,
    };
    let ghost c = (cs - start) as int;
    proof {
        assert(l.subrange(0, c) =~= v@.subrange(start as int, cs as int));
        assert(l.subrange(c + 2, l.len() as int) =~= v@.subrange(cs + 2, end as int));
    }
    if cs - start < 6 {
        return None;
    }
    if !(v[start] == 69 && v[start + 1] == 88 && v[start + 2] == 80 && v[start + 3] == 82
        && v[start + 4] == 95) {
        proof {
            let prefix = l.subrange(0, c);
            assert(prefix[0] == v@[start as int] && prefix[1] == v@[start + 1] && prefix[2]
                == v@[start + 2] && prefix[3] == v@[start + 3] && prefix[4] == v@[start + 4]);
        }
        return None;
    }
    proof {
        let prefix = l.subrange(0, c);
        assert(prefix[0] == v@[start as int] && prefix[1] == v@[start + 1] && prefix[2] == v@[start
            + 2] && prefix[3] == v@[start + 3] && prefix[4] == v@[start + 4]);
        assert(prefix.subrange(5, prefix.len() as int) =~= v@.subrange(start + 5, cs as int));
    }
    let idx = match crate::text::parse_dec_bytes(v, start + 5, cs) {
        None => {
            return None;
        },
        Some(x) => x,
    };
    let value = match crate::text::parse_dec_bytes(v, cs + 2, end) {
        None => {
            return None;
        },
        Some(x) => x,
    };
    Some((idx, value))
}

/// Apply one oracle answer to every target registered under its key.
fn apply_targets(records: &mut Vec<ResolvedRecord>, ids: &Vec<ConstraintId>, value: usize)
    requires
        forall|j: int| 0 <= j < ids@.len() ==> target_ok(#[trigger] ids@[j], old(
            records,
        ).deep_view()),
    ensures
        final(records).deep_view() == spec_apply_targets(old(records).deep_view(), ids@, value),
{
    let ghost dv0 = records.deep_view();
    proof {
        assert(ids@.subrange(0, 0) =~= Seq::<ConstraintId>::empty());
    }
    let mut m: usize = 0;
    #[verifier::loop_isolation(false)]
    while m < ids.len()
        invariant
            m <= ids@.len(),
            records.deep_view() == spec_apply_targets(dv0, ids@.subrange(0, m as int), value),
        decreases ids@.len() - m,
    {
        proof {
            assert(ids@.subrange(0, m + 1).drop_last() =~= ids@.subrange(0, m as int));
            assert(ids@.subrange(0, m + 1).last() == ids@[m as int]);
            assert(forall|j: int|
                0 <= j < ids@.subrange(0, m as int).len() ==> target_ok(
                    #[trigger] ids@.subrange(0, m as int)[j],
                    dv0,
                ));
            lemma_apply_targets_shape(dv0, ids@.subrange(0, m as int), value);
            assert(target_ok(ids@[m as int], records.deep_view()));
        }
        let id = ids[m];
        let ghost dv_pre = records.deep_view();
        let rec = &mut records[id.record_index];
        let fld = &mut rec.fields[id.field_index];
        match fld.bit_width {
            Some(rng) => {
                let rng2 = match id.side {
                    Side::Left => ResolvedRange { left: Some(value), right: rng.right },
                    Side::Right => ResolvedRange { left: rng.left, right: Some(value) },
                };
                fld.bit_width = Some(rng2);
            },
            None => {
                proof {
                    assert(false);
                }
            },
        }
        proof {
            assert(records.deep_view() =~= spec_apply_target(dv_pre, ids@[m as int], value)) by {
                let expected = spec_apply_target(dv_pre, ids@[m as int], value);
                assert forall|i: int| 0 <= i < records.deep_view().len() implies records.deep_view()[i]
                    == expected[i] by {
                    if i == id.record_index {
                        assert(records.deep_view()[i].fields =~= expected[i].fields);
                    }
                }
            }
        }
        m = m + 1;
    }
    proof {
        assert(ids@.subrange(0, ids@.len() as int) =~= ids@);
    }
}

/// Parse the captured simulation output line by line and back-patch
/// every registered target with its key's single answer.
///
/// Each line must match `EXPR_<index>: <integer>`; an unparseable line
/// or an out-of-range index is a fatal internal-consistency error.
#[verifier::loop_isolation(false)]
#[verifier::rlimit(30)]
pub fn process_sim_output(
    table: &ExprTable,
    records: &mut Vec<ResolvedRecord>,
    sim_out: &Vec<u8>,
) -> (r: Result<(), VwError>)
    requires
        table_targets_wf(table@, old(records).deep_view()),
    ensures
        same_shape(old(records).deep_view(), final(records).deep_view()),
        match spec_process_lines(
            table@,
            old(records).deep_view(),
            crate::text::spec_split_lines(sim_out@),
            0,
        ) {
            Ok(rv) => r is Ok && final(records).deep_view() == rv,
            Err(ev) => r is Err && r->Err_0@ == ev,
        },
{
    let ghost tv = table@;
    let ghost dv0 = records.deep_view();
    let ghost s = sim_out@;
    let len = sim_out.len();
    let mut pos: usize = 0;
    let mut line_no: usize = 0;
    proof {
        assert(s.skip(0) =~= s);
    }
    while pos < len
        invariant
            pos <= len,
            line_no <= pos,
            table_targets_wf(tv, records.deep_view()),
            same_shape(dv0, records.deep_view()),
            spec_process_lines(tv, dv0, crate::text::spec_split_lines(s), 0) == spec_process_lines(
                tv,
                records.deep_view(),
                crate::text::spec_split_lines(s.skip(pos as int)),
                line_no as nat,
            ),
        decreases len - pos,
    {
        let ghost rest = s.skip(pos as int);
        let (line_end, next_pos) = match crate::text::find_byte_from(sim_out, pos, len, 10) {
            Some(k) => (k, k + 1),
            None => (len, len),
        };
        proof {
            assert(rest.len() > 0);
        }
        let stripped_end: usize = if line_end > pos && sim_out[line_end - 1] == 13 {
            line_end - 1
        } else {
            line_end
        };
        proof {
            let lines = crate::text::spec_split_lines(rest);
            if next_pos == len && line_end == len {
                assert(crate::text::find_byte(rest, 10) == -1);
                assert(lines =~= seq![crate::text::strip_cr(rest)]);
            } else {
                assert(crate::text::find_byte(rest, 10) == line_end - pos);
                assert(rest.subrange(0, line_end - pos) =~= s.subrange(pos as int,
                    line_end as int));
                assert(rest.subrange(line_end - pos + 1, rest.len() as int) =~= s.skip(
                    next_pos as int));
            }
            assert(rest =~= s.subrange(pos as int, len as int));
            let raw_line = s.subrange(pos as int, line_end as int);
            if line_end > pos && s[line_end - 1] == 13 {
                assert(crate::text::strip_cr(raw_line) =~= s.subrange(pos as int,
                    stripped_end as int));
            } else {
                assert(crate::text::strip_cr(raw_line) =~= s.subrange(pos as int,
                    stripped_end as int));
            }
            assert(lines.first() == crate::text::strip_cr(raw_line));
            if next_pos == len && line_end == len {
                assert(lines.drop_first() =~= crate::text::spec_split_lines(s.skip(
                    next_pos as int)) + Seq::<Seq<u8>>::empty());
                assert(s.skip(len as int) =~= Seq::<u8>::empty());
                assert(lines.drop_first() =~= crate::text::spec_split_lines(s.skip(
                    next_pos as int)));
            } else {
                assert(lines.drop_first() =~= crate::text::spec_split_lines(s.skip(
                    next_pos as int)));
            }
        }
        match parse_line(sim_out, pos, stripped_end) {
            None => {
                return Err(VwError::MalformedOracleLine { line_index: line_no });
            },
            Some((idx, value)) => {
                if idx >= table.entries.len() {
                    return Err(VwError::OracleIndexOutOfRange { index: idx });
                }
                proof {
                    assert(table.entries@[idx as int]@ == tv[idx as int]);
                    assert(forall|j: int|
                        0 <= j < tv[idx as int].targets.len() ==> target_ok(
                            #[trigger] tv[idx as int].targets[j],
                            records.deep_view(),
                        ));
                }
                let ghost dv_pre = records.deep_view();
                apply_targets(records, &table.entries[idx].targets, value);
                proof {
                    lemma_apply_targets_shape(dv_pre, tv[idx as int].targets, value);
                    lemma_shape_keeps_wf(tv, dv_pre, records.deep_view());
                }
            },
        }
        pos = next_pos;
        line_no = line_no + 1;
    }
    proof {
        assert(s.skip(len as int) =~= Seq::<u8>::empty());
        assert(crate::text::spec_split_lines(s.skip(pos as int)) =~= Seq::<Seq<u8>>::empty());
    }
    Ok(())
}


/// Whether some entry of the table registers exactly this target.
pub open spec fn table_has_target(t: Seq<ExprEntryV>, x: ConstraintId) -> bool {
    exists|i: int, j: int|
        0 <= i < t.len() && 0 <= j < t[i].targets.len() && (#[trigger] t[i].targets[j]) == x
}

/// Every target of a registration result is the new target or an old one.
proof fn lemma_register_targets(t: Seq<ExprEntryV>, key: Seq<char>, id: ConstraintId)
    ensures
        forall|x: ConstraintId|
            #[trigger] table_has_target(table_register(t, key, id), x) ==> x == id
                || table_has_target(t, x),
{
    lemma_table_find(t, key);
    let t2 = table_register(t, key, id);
    let f = table_find(t, key);
    assert forall|x: ConstraintId| #[trigger] table_has_target(t2, x) implies x == id
        || table_has_target(t, x) by {
        let (i, j): (int, int) = choose|i: int, j: int|
            0 <= i < t2.len() && 0 <= j < t2[i].targets.len() && (#[trigger] t2[i].targets[j])
                == x;
        if f < 0 {
            if i < t.len() {
                assert(t[i].targets[j] == x);
            } else {
                assert(t2[i].targets =~= seq![id]);
            }
        } else {
            if i == f {
                if j < t[i].targets.len() {
                    assert(t[i].targets[j] == x);
                }
            } else {
                assert(t[i].targets[j] == x);
            }
        }
    }
}

/// A target valid for a record prefix and partial field list.
pub open spec fn target_ok_partial(
    id: ConstraintId,
    rs: Seq<ResolvedRecordV>,
    fs: Seq<ResolvedFieldV>,
) -> bool {
    if id.record_index < rs.len() {
        target_ok(id, rs)
    } else {
        &&& id.record_index == rs.len()
        &&& id.field_index < fs.len()
        &&& fs[id.field_index as int].bit_width is Some
    }
}

/// Classifying one field keeps the table's keys distinct and keeps
/// every target valid for the grown field list.
proof fn lemma_classify_field_wf(
    rec_pos: usize,
    fld_pos: usize,
    f: FieldDataV,
    record_name: Seq<char>,
    tagged: Seq<Seq<char>>,
    t: Seq<ExprEntryV>,
    rs: Seq<ResolvedRecordV>,
    fs: Seq<ResolvedFieldV>,
)
    requires
        rec_pos == rs.len(),
        fld_pos == fs.len(),
        table_keys_distinct(t),
        forall|x: ConstraintId| #[trigger] table_has_target(t, x) ==> target_ok_partial(x, rs, fs),
        spec_classify_field(rec_pos, fld_pos, f, record_name, tagged, t) is Ok,
    ensures
        ({
            let (fv, t2) = spec_classify_field(rec_pos, fld_pos, f, record_name, tagged, t)->Ok_0;
            &&& table_keys_distinct(t2)
            &&& forall|x: ConstraintId|
                #[trigger] table_has_target(t2, x) ==> target_ok_partial(x, rs, fs.push(fv))
        }),
{
    let (fv, t2) = spec_classify_field(rec_pos, fld_pos, f, record_name, tagged, t)->Ok_0;
    assert(forall|x: ConstraintId|
        #[trigger] table_has_target(t, x) ==> target_ok_partial(x, rs, fs.push(fv)));
    if is_vector_name(f.subtype_name) {
        let rc = f.constraint->0;
        let (left, t1) = spec_classify_side(rec_pos, fld_pos, Side::Left, rc.left_expr, t);
        let (right, tr) = spec_classify_side(rec_pos, fld_pos, Side::Right, rc.right_expr, t1);
        assert(fv.bit_width is Some);
        let id_l = ConstraintId { record_index: rec_pos, field_index: fld_pos, side: Side::Left };
        let id_r = ConstraintId { record_index: rec_pos, field_index: fld_pos, side: Side::Right };
        assert(target_ok_partial(id_l, rs, fs.push(fv)));
        assert(target_ok_partial(id_r, rs, fs.push(fv)));
        if spec_lit_usize(rc.left_expr) is None {
            lemma_register_targets(t, spec_expr_text(rc.left_expr), id_l);
            lemma_register_keeps_distinct(t, spec_expr_text(rc.left_expr), id_l);
        }
        assert(forall|x: ConstraintId|
            #[trigger] table_has_target(t1, x) ==> target_ok_partial(x, rs, fs.push(fv)));
        if spec_lit_usize(rc.right_expr) is None {
            lemma_register_targets(t1, spec_expr_text(rc.right_expr), id_r);
            lemma_register_keeps_distinct(t1, spec_expr_text(rc.right_expr), id_r);
        }
        assert(t2 == tr);
    } else {
        assert(t2 == t);
    }
}

/// Classifying a field list keeps the table's keys distinct, yields one
/// resolved field per input field, and keeps every target valid.
proof fn lemma_classify_fields_wf(
    rec_pos: usize,
    fields: Seq<FieldDataV>,
    record_name: Seq<char>,
    tagged: Seq<Seq<char>>,
    t0: Seq<ExprEntryV>,
    rs: Seq<ResolvedRecordV>,
)
    requires
        rec_pos == rs.len(),
        fields.len() <= usize::MAX,
        table_keys_distinct(t0),
        forall|x: ConstraintId| #[trigger] table_has_target(t0, x) ==> target_ok(x, rs),
        spec_classify_fields(rec_pos, fields, record_name, tagged, t0) is Ok,
    ensures
        ({
            let (fs, t2) = spec_classify_fields(rec_pos, fields, record_name, tagged, t0)->Ok_0;
            &&& fs.len() == fields.len()
            &&& table_keys_distinct(t2)
            &&& forall|x: ConstraintId|
                #[trigger] table_has_target(t2, x) ==> target_ok_partial(x, rs, fs)
        }),
    decreases fields.len(),
{
    if fields.len() == 0 {
        assert(forall|x: ConstraintId|
            #[trigger] table_has_target(t0, x) ==> target_ok_partial(
                x,
                rs,
                Seq::<ResolvedFieldV>::empty(),
            ));
    } else {
        lemma_classify_fields_wf(rec_pos, fields.drop_last(), record_name, tagged, t0, rs);
        let (fs1, t1) = spec_classify_fields(
            rec_pos,
            fields.drop_last(),
            record_name,
            tagged,
            t0,
        )->Ok_0;
        lemma_classify_field_wf(
            rec_pos,
            (fields.len() - 1) as usize,
            fields.last(),
            record_name,
            tagged,
            t1,
            rs,
            fs1,
        );
    }
}

/// Classifying the selected records keeps the table's keys distinct,
/// yields one resolved record per selection, and leaves every target
/// pointing at an in-bounds vector field of the result.
proof fn lemma_classify_records_wf(
    sel: Seq<usize>,
    records: Seq<RecordDataV>,
    tagged: Seq<Seq<char>>,
)
    requires
        sel.len() <= usize::MAX,
        forall|k: int|
            0 <= k < sel.len() ==> (#[trigger] records[sel[k] as int]).fields.len() <= usize::MAX,
        spec_classify_records(sel, records, tagged, Seq::empty()) is Ok,
    ensures
        ({
            let (rs, t) = spec_classify_records(sel, records, tagged, Seq::empty())->Ok_0;
            &&& rs.len() == sel.len()
            &&& table_keys_distinct(t)
            &&& forall|x: ConstraintId| #[trigger] table_has_target(t, x) ==> target_ok(x, rs)
        }),
    decreases sel.len(),
{
    if sel.len() == 0 {
        let t = Seq::<ExprEntryV>::empty();
        assert forall|x: ConstraintId| #[trigger] table_has_target(t, x) implies target_ok(
            x,
            Seq::<ResolvedRecordV>::empty(),
        ) by {
            let (i, j): (int, int) = choose|i: int, j: int|
                0 <= i < t.len() && 0 <= j < t[i].targets.len() && (#[trigger] t[i].targets[j])
                    == x;
        }
    } else {
        assert(forall|k: int|
            0 <= k < sel.drop_last().len() ==> (#[trigger] records[sel.drop_last()[k] as int])
                == records[sel[k] as int]);
        lemma_classify_records_wf(sel.drop_last(), records, tagged);
        let (rs1, t1) = spec_classify_records(sel.drop_last(), records, tagged, Seq::empty())->Ok_0;
        let rec = records[sel.last() as int];
        assert(rec == records[sel[sel.len() - 1] as int]);
        lemma_classify_fields_wf(
            (sel.len() - 1) as usize,
            rec.fields,
            rec.name,
            tagged,
            t1,
            rs1,
        );
        let (fs, t2) = spec_classify_fields(
            (sel.len() - 1) as usize,
            rec.fields,
            rec.name,
            tagged,
            t1,
        )->Ok_0;
        let rs2 = rs1.push(ResolvedRecordV { name: rec.name, fields: fs });
        assert forall|x: ConstraintId| #[trigger] table_has_target(t2, x) implies target_ok(
            x,
            rs2,
        ) by {
            assert(target_ok_partial(x, rs1, fs));
        }
    }
}

/// Selection yields one index and one package per tagged name.
pub proof fn lemma_select_len(tagged: Seq<Seq<char>>, records: Seq<RecordDataV>)
    requires
        spec_select(tagged, records) is Ok,
    ensures
        spec_select(tagged, records)->Ok_0.indices.len() == tagged.len(),
        spec_select(tagged, records)->Ok_0.packages.len() == tagged.len(),
    decreases tagged.len(),
{
    if tagged.len() > 0 {
        lemma_select_len(tagged.drop_last(), records);
    }
}

/// Deduplication: a prepared job's expression keys are pairwise
/// distinct (one synthesized statement per distinct expression text),
/// and every registered target points at an in-bounds vector field of
/// the classified records, each key's targets awaiting the key's one
/// answer.
pub proof fn lemma_prepare_dedup_and_wf(tagged: Seq<Seq<char>>, records: Seq<RecordDataV>)
    requires
        tagged.len() <= usize::MAX,
        forall|m: int| 0 <= m < records.len() ==> (#[trigger] records[m]).fields.len()
            <= usize::MAX,
        spec_prepare(tagged, records) is Ok,
    ensures
        table_keys_distinct(spec_prepare(tagged, records)->Ok_0.table),
        table_targets_wf(
            spec_prepare(tagged, records)->Ok_0.table,
            spec_prepare(tagged, records)->Ok_0.records,
        ),
{
    let sel = spec_select(tagged, records)->Ok_0;
    lemma_select_len(tagged, records);
    lemma_select_indices_bounded(tagged, records);
    lemma_classify_records_wf(sel.indices, records, tagged);
    let (rs, t) = spec_classify_records(sel.indices, records, tagged, Seq::empty())->Ok_0;
    assert forall|i: int, j: int|
        0 <= i < t.len() && 0 <= j < t[i].targets.len() implies target_ok(
        #[trigger] t[i].targets[j],
        rs,
    ) by {
        assert(table_has_target(t, t[i].targets[j]));
    }
}

/// The bounds pair a target's side currently holds.
pub open spec fn side_value(recs: Seq<ResolvedRecordV>, id: ConstraintId) -> Option<usize> {
    let f = recs[id.record_index as int].fields[id.field_index as int];
    match f.bit_width {
        Some(rr) => match id.side {
            Side::Left => rr.left,
            Side::Right => rr.right,
        },
        None => None,
    }
}

/// Applying one answer changes exactly the addressed side.
proof fn lemma_apply_target_exact(recs: Seq<ResolvedRecordV>, id: ConstraintId, value: usize)
    requires
        target_ok(id, recs),
    ensures
        side_value(spec_apply_target(recs, id, value), id) == Some(value),
        forall|x: ConstraintId|
            target_ok(x, recs) && x != id ==> #[trigger] side_value(
                spec_apply_target(recs, id, value),
                x,
            ) == side_value(recs, x),
{
}

/// Propagation: applying a key's single answer sets exactly the sides
/// its registered targets name, all to that one answer, and leaves
/// every other side of every record untouched.
pub proof fn lemma_apply_targets_exact(
    recs: Seq<ResolvedRecordV>,
    ids: Seq<ConstraintId>,
    value: usize,
)
    requires
        forall|j: int| 0 <= j < ids.len() ==> target_ok(#[trigger] ids[j], recs),
    ensures
        forall|j: int|
            0 <= j < ids.len() ==> #[trigger] side_value(
                spec_apply_targets(recs, ids, value),
                ids[j],
            ) == Some(value),
        forall|x: ConstraintId|
            target_ok(x, recs) && !ids.contains(x) ==> #[trigger] side_value(
                spec_apply_targets(recs, ids, value),
                x,
            ) == side_value(recs, x),
    decreases ids.len(),
{
    if ids.len() > 0 {
        let prefix = ids.drop_last();
        assert(forall|j: int| 0 <= j < prefix.len() ==> target_ok(#[trigger] prefix[j], recs));
        lemma_apply_targets_exact(recs, prefix, value);
        let mid = spec_apply_targets(recs, prefix, value);
        lemma_apply_targets_shape(recs, prefix, value);
        assert(target_ok(ids.last(), mid));
        lemma_apply_target_exact(mid, ids.last(), value);
        let fin = spec_apply_target(mid, ids.last(), value);
        assert forall|j: int| 0 <= j < ids.len() implies #[trigger] side_value(fin, ids[j])
            == Some(value) by {
            if j < ids.len() - 1 {
                assert(prefix[j] == ids[j]);
                assert(side_value(mid, ids[j]) == Some(value));
                assert(target_ok(ids[j], recs));
                assert(target_ok(ids[j], mid));
                if ids[j] != ids.last() {
                    assert(side_value(fin, ids[j]) == side_value(mid, ids[j]));
                }
            } else {
                assert(ids[j] == ids.last());
            }
        }
        assert forall|x: ConstraintId|
            target_ok(x, recs) && !ids.contains(x) implies #[trigger] side_value(fin, x)
            == side_value(recs, x) by {
            assert(!prefix.contains(x)) by {
                if prefix.contains(x) {
                    let j = choose|j: int| 0 <= j < prefix.len() && prefix[j] == x;
                    assert(ids[j] == x);
                }
            }
            assert(x != ids.last()) by {
                if x == ids.last() {
                    assert(ids[ids.len() - 1] == x);
                }
            }
            assert(target_ok(x, mid));
        }
    }
}

/// Scalar short-circuit: a field of the scalar subtype kind resolves to
/// the fixed bounds pair `(0, 0)` (width one) without touching the
/// table, so it never reaches the oracle.
pub proof fn lemma_scalar_field_bypasses_oracle(
    rec_pos: usize,
    fld_pos: usize,
    f: FieldDataV,
    record_name: Seq<char>,
    tagged: Seq<Seq<char>>,
    t: Seq<ExprEntryV>,
)
    requires
        !is_vector_name(f.subtype_name),
        is_scalar_name(f.subtype_name),
    ensures
        spec_classify_field(rec_pos, fld_pos, f, record_name, tagged, t) == Ok::<
            (ResolvedFieldV, Seq<ExprEntryV>),
            VwErrorV,
        >(
            (
                ResolvedFieldV {
                    name: f.name,
                    bit_width: Some(ResolvedRange { left: Some(0), right: Some(0) }),
                    subtype_name: f.subtype_name,
                },
                t,
            ),
        ),
{
}

/// Whether a field resolves without the oracle: a scalar, a nested
/// tagged type, or a vector whose both bounds are integer literals.
pub open spec fn field_all_literal(f: FieldDataV) -> bool {
    if is_vector_name(f.subtype_name) {
        match f.constraint {
            Some(rc) => spec_lit_usize(rc.left_expr) is Some && spec_lit_usize(rc.right_expr)
                is Some,
            None => false,
        }
    } else {
        true
    }
}

/// Literal short-circuit for one field: an all-literal-bound field
/// leaves the table exactly as it was.
pub proof fn lemma_literal_field_bypasses_oracle(
    rec_pos: usize,
    fld_pos: usize,
    f: FieldDataV,
    record_name: Seq<char>,
    tagged: Seq<Seq<char>>,
    t: Seq<ExprEntryV>,
)
    requires
        field_all_literal(f),
        spec_classify_field(rec_pos, fld_pos, f, record_name, tagged, t) is Ok,
    ensures
        spec_classify_field(rec_pos, fld_pos, f, record_name, tagged, t)->Ok_0.1 == t,
{
}

proof fn lemma_literal_fields_no_oracle(
    rec_pos: usize,
    fields: Seq<FieldDataV>,
    record_name: Seq<char>,
    tagged: Seq<Seq<char>>,
    t0: Seq<ExprEntryV>,
)
    requires
        forall|j: int| 0 <= j < fields.len() ==> field_all_literal(#[trigger] fields[j]),
        spec_classify_fields(rec_pos, fields, record_name, tagged, t0) is Ok,
    ensures
        spec_classify_fields(rec_pos, fields, record_name, tagged, t0)->Ok_0.1 == t0,
    decreases fields.len(),
{
    if fields.len() > 0 {
        lemma_literal_fields_no_oracle(rec_pos, fields.drop_last(), record_name, tagged, t0);
        let (fs1, t1) = spec_classify_fields(
            rec_pos,
            fields.drop_last(),
            record_name,
            tagged,
            t0,
        )->Ok_0;
        assert(fields[fields.len() - 1] == fields.last());
        lemma_literal_field_bypasses_oracle(
            rec_pos,
            (fields.len() - 1) as usize,
            fields.last(),
            record_name,
            tagged,
            t1,
        );
    }
}

proof fn lemma_literal_records_no_oracle(
    sel: Seq<usize>,
    records: Seq<RecordDataV>,
    tagged: Seq<Seq<char>>,
)
    requires
        forall|k: int, j: int|
            0 <= k < sel.len() && 0 <= j < records[sel[k] as int].fields.len()
                ==> field_all_literal(#[trigger] records[sel[k] as int].fields[j]),
        spec_classify_records(sel, records, tagged, Seq::empty()) is Ok,
    ensures
        spec_classify_records(sel, records, tagged, Seq::empty())->Ok_0.1 =~= Seq::<
            ExprEntryV,
        >::empty(),
    decreases sel.len(),
{
    if sel.len() > 0 {
        lemma_literal_records_no_oracle(sel.drop_last(), records, tagged);
        let (rs1, t1) = spec_classify_records(sel.drop_last(), records, tagged, Seq::empty())->Ok_0;
        let rec = records[sel.last() as int];
        assert(sel[sel.len() - 1] == sel.last());
        assert(forall|j: int|
            0 <= j < rec.fields.len() ==> field_all_literal(#[trigger] rec.fields[j]));
        lemma_literal_fields_no_oracle(
            (sel.len() - 1) as usize,
            rec.fields,
            rec.name,
            tagged,
            t1,
        );
    }
}

/// Literal short-circuit: when every field of every selected record is
/// all-literal-bound (or scalar, or a nested tagged type), the prepared
/// job's table is empty, its synthesized program holds no evaluation
/// statement, and the toolchain runner need never be invoked.
pub proof fn lemma_literal_short_circuit(tagged: Seq<Seq<char>>, records: Seq<RecordDataV>)
    requires
        spec_prepare(tagged, records) is Ok,
        ({
            let sel = spec_select(tagged, records)->Ok_0;
            forall|k: int, j: int|
                0 <= k < sel.indices.len() && 0 <= j < records[sel.indices[k] as int].fields.len()
                    ==> field_all_literal(
                    #[trigger] records[sel.indices[k] as int].fields[j],
                )
        }),
    ensures
        spec_prepare(tagged, records)->Ok_0.table =~= Seq::<ExprEntryV>::empty(),
        spec_prepare(tagged, records)->Ok_0.testbench == spec_testbench(
            Seq::empty(),
            spec_prepare(tagged, records)->Ok_0.packages,
        ),
{
    let sel = spec_select(tagged, records)->Ok_0;
    lemma_literal_records_no_oracle(sel.indices, records, tagged);
    let t = spec_classify_records(sel.indices, records, tagged, Seq::empty())->Ok_0.1;
    assert(table_keys(t) =~= Seq::<Seq<char>>::empty());
}

/// Fatal on unconstrained: if selection succeeds, the records selected
/// before position `k` classify cleanly, the fields of record `k`
/// before position `j` classify cleanly, and field `j` is a vector
/// field without a range constraint, then the whole pipeline fails
/// before any oracle invocation with an error naming exactly that
/// record and field.
pub proof fn lemma_unconstrained_vector_fatal(
    tagged: Seq<Seq<char>>,
    records: Seq<RecordDataV>,
    k: int,
    j: int,
)
    requires
        spec_select(tagged, records) is Ok,
        ({
            let sel = spec_select(tagged, records)->Ok_0;
            &&& 0 <= k < sel.indices.len()
            &&& spec_classify_records(sel.indices.subrange(0, k), records, tagged, Seq::empty())
                is Ok
            &&& ({
                let t1 = spec_classify_records(
                    sel.indices.subrange(0, k),
                    records,
                    tagged,
                    Seq::empty(),
                )->Ok_0.1;
                let rec = records[sel.indices[k] as int];
                &&& 0 <= j < rec.fields.len()
                &&& spec_classify_fields(k as usize, rec.fields.subrange(0, j), rec.name, tagged,
                    t1) is Ok
                &&& is_vector_name(rec.fields[j].subtype_name)
                &&& rec.fields[j].constraint is None
            })
        }),
    ensures
        ({
            let sel = spec_select(tagged, records)->Ok_0;
            let rec = records[sel.indices[k] as int];
            spec_prepare(tagged, records) == Err::<PrepV, VwErrorV>(
                VwErrorV::UnconstrainedField { record: rec.name, field: rec.fields[j].name },
            )
        }),
{
    let sel = spec_select(tagged, records)->Ok_0;
    let t1 = spec_classify_records(sel.indices.subrange(0, k), records, tagged, Seq::empty())
        ->Ok_0.1;
    let rs1 = spec_classify_records(sel.indices.subrange(0, k), records, tagged, Seq::empty())
        ->Ok_0.0;
    let rec = records[sel.indices[k] as int];
    let (fs, tj) = spec_classify_fields(
        (k as usize),
        rec.fields.subrange(0, j),
        rec.name,
        tagged,
        t1,
    )->Ok_0;
    assert(spec_classify_field(k as usize, j as usize, rec.fields[j], rec.name, tagged, tj)
        == Err::<(ResolvedFieldV, Seq<ExprEntryV>), VwErrorV>(
        VwErrorV::UnconstrainedField { record: rec.name, field: rec.fields[j].name },
    ));
    lemma_classify_fields_error(k as usize, rec.fields, j, rec.name, tagged, t1, tj, fs);
    lemma_classify_records_error(sel.indices, k, records, tagged, t1, rs1);
}

/// Fatal on untagged subtype: under the same clean-prefix conditions,
/// a field whose subtype is neither the vector nor the scalar kind nor
/// a tagged name fails the whole pipeline before code generation,
/// naming the missing tag.
pub proof fn lemma_untagged_subtype_fatal(
    tagged: Seq<Seq<char>>,
    records: Seq<RecordDataV>,
    k: int,
    j: int,
)
    requires
        spec_select(tagged, records) is Ok,
        ({
            let sel = spec_select(tagged, records)->Ok_0;
            &&& 0 <= k < sel.indices.len()
            &&& spec_classify_records(sel.indices.subrange(0, k), records, tagged, Seq::empty())
                is Ok
            &&& ({
                let t1 = spec_classify_records(
                    sel.indices.subrange(0, k),
                    records,
                    tagged,
                    Seq::empty(),
                )->Ok_0.1;
                let rec = records[sel.indices[k] as int];
                &&& 0 <= j < rec.fields.len()
                &&& spec_classify_fields(k as usize, rec.fields.subrange(0, j), rec.name, tagged,
                    t1) is Ok
                &&& !is_vector_name(rec.fields[j].subtype_name)
                &&& !is_scalar_name(rec.fields[j].subtype_name)
                &&& !seq_contains_name(tagged, rec.fields[j].subtype_name)
            })
        }),
    ensures
        ({
            let sel = spec_select(tagged, records)->Ok_0;
            let rec = records[sel.indices[k] as int];
            spec_prepare(tagged, records) == Err::<PrepV, VwErrorV>(
                VwErrorV::UntaggedSubtype { name: rec.fields[j].subtype_name },
            )
        }),
{
    let sel = spec_select(tagged, records)->Ok_0;
    let t1 = spec_classify_records(sel.indices.subrange(0, k), records, tagged, Seq::empty())
        ->Ok_0.1;
    let rs1 = spec_classify_records(sel.indices.subrange(0, k), records, tagged, Seq::empty())
        ->Ok_0.0;
    let rec = records[sel.indices[k] as int];
    let (fs, tj) = spec_classify_fields(
        (k as usize),
        rec.fields.subrange(0, j),
        rec.name,
        tagged,
        t1,
    )->Ok_0;
    assert(spec_classify_field(k as usize, j as usize, rec.fields[j], rec.name, tagged, tj)
        == Err::<(ResolvedFieldV, Seq<ExprEntryV>), VwErrorV>(
        VwErrorV::UntaggedSubtype { name: rec.fields[j].subtype_name },
    ));
    lemma_classify_fields_error(k as usize, rec.fields, j, rec.name, tagged, t1, tj, fs);
    lemma_classify_records_error(sel.indices, k, records, tagged, t1, rs1);
}

/// The whole pipeline as one function of its inputs: preparation,
/// answer application, and code generation composed.  A generated text
/// that fails to parse is reported as a code-generation error whose
/// diagnostic text comes from the external parser and is the one part
/// the composition does not pin.
pub open spec fn spec_pipeline_output(
    tagged: Seq<Seq<char>>,
    records: Seq<RecordDataV>,
    sim_out: Seq<u8>,
) -> Result<Seq<char>, VwErrorV> {
    match spec_prepare(tagged, records) {
        Err(e) => Err(e),
        Ok(p) => match spec_process_lines(
            p.table,
            p.records,
            crate::text::spec_split_lines(sim_out),
            0,
        ) {
            Err(e) => Err(e),
            Ok(rv) => match crate::codegen::spec_rust_source(rv) {
                Err(e) => Err(e),
                Ok(src) => match crate::codegen::pretty_of(src) {
                    Some(p2) => Ok(p2),
                    None => Err(VwErrorV::CodeGenParse { message: Seq::empty() }),
                },
            },
        },
    }
}

/// Determinism: identical input and identical captured oracle output
/// determine the generated text exactly.  Each stage's contract pins
/// its result to a function of its arguments' views, so two runs over
/// equal inputs produce byte-identical generated output.
pub proof fn lemma_pipeline_deterministic(
    tagged1: Seq<Seq<char>>,
    records1: Seq<RecordDataV>,
    sim1: Seq<u8>,
    tagged2: Seq<Seq<char>>,
    records2: Seq<RecordDataV>,
    sim2: Seq<u8>,
)
    requires
        tagged1 == tagged2,
        records1 == records2,
        sim1 == sim2,
    ensures
        spec_pipeline_output(tagged1, records1, sim1) == spec_pipeline_output(
            tagged2,
            records2,
            sim2,
        ),
{
}


/// Whether no two table positions register the same target.
pub open spec fn targets_pairwise_distinct(t: Seq<ExprEntryV>) -> bool {
    forall|i1: int, j1: int, i2: int, j2: int|
        0 <= i1 < t.len() && 0 <= j1 < t[i1].targets.len() && 0 <= i2 < t.len() && 0 <= j2
            < t[i2].targets.len() && (i1 != i2 || j1 != j2) ==> (#[trigger] t[i1].targets[j1])
            != (#[trigger] t[i2].targets[j2])
}

/// Registering a target the table does not yet hold keeps all
/// registered targets pairwise distinct.
proof fn lemma_register_fresh_distinct(t: Seq<ExprEntryV>, key: Seq<char>, id: ConstraintId)
    requires
        targets_pairwise_distinct(t),
        !table_has_target(t, id),
    ensures
        targets_pairwise_distinct(table_register(t, key, id)),
{
    lemma_table_find(t, key);
    let t2 = table_register(t, key, id);
    let f = table_find(t, key);
    assert forall|i1: int, j1: int, i2: int, j2: int|
        0 <= i1 < t2.len() && 0 <= j1 < t2[i1].targets.len() && 0 <= i2 < t2.len() && 0 <= j2
            < t2[i2].targets.len() && (i1 != i2 || j1 != j2) implies (#[trigger] t2[i1].targets[j1])
        != (#[trigger] t2[i2].targets[j2]) by {
        let old1 = i1 < t.len() && j1 < t[i1].targets.len();
        let old2 = i2 < t.len() && j2 < t[i2].targets.len();
        if old1 {
            assert(t2[i1].targets[j1] == t[i1].targets[j1]);
        } else {
            assert(t2[i1].targets[j1] == id);
        }
        if old2 {
            assert(t2[i2].targets[j2] == t[i2].targets[j2]);
        } else {
            assert(t2[i2].targets[j2] == id);
        }
        if old1 && !old2 {
            assert(table_has_target(t, t[i1].targets[j1]));
        }
        if old2 && !old1 {
            assert(table_has_target(t, t[i2].targets[j2]));
        }
    }
}

/// Classifying one field keeps all registered targets pairwise distinct.
proof fn lemma_classify_field_distinct_targets(
    rec_pos: usize,
    fld_pos: usize,
    f: FieldDataV,
    record_name: Seq<char>,
    tagged: Seq<Seq<char>>,
    t: Seq<ExprEntryV>,
    rs: Seq<ResolvedRecordV>,
    fs: Seq<ResolvedFieldV>,
)
    requires
        rec_pos == rs.len(),
        fld_pos == fs.len(),
        targets_pairwise_distinct(t),
        forall|x: ConstraintId| #[trigger] table_has_target(t, x) ==> target_ok_partial(x, rs, fs),
        spec_classify_field(rec_pos, fld_pos, f, record_name, tagged, t) is Ok,
    ensures
        targets_pairwise_distinct(
            spec_classify_field(rec_pos, fld_pos, f, record_name, tagged, t)->Ok_0.1,
        ),
{
    if is_vector_name(f.subtype_name) {
        let rc = f.constraint->0;
        let (left, t1) = spec_classify_side(rec_pos, fld_pos, Side::Left, rc.left_expr, t);
        let id_l = ConstraintId { record_index: rec_pos, field_index: fld_pos, side: Side::Left };
        let id_r = ConstraintId { record_index: rec_pos, field_index: fld_pos, side: Side::Right };
        assert(!target_ok_partial(id_l, rs, fs) && !target_ok_partial(id_r, rs, fs));
        if spec_lit_usize(rc.left_expr) is None {
            assert(!table_has_target(t, id_l));
            lemma_register_fresh_distinct(t, spec_expr_text(rc.left_expr), id_l);
            lemma_register_targets(t, spec_expr_text(rc.left_expr), id_l);
        }
        assert(forall|x: ConstraintId|
            #[trigger] table_has_target(t1, x) ==> x == id_l || target_ok_partial(x, rs, fs));
        if spec_lit_usize(rc.right_expr) is None {
            assert(!table_has_target(t1, id_r));
            lemma_register_fresh_distinct(t1, spec_expr_text(rc.right_expr), id_r);
        }
    }
}

/// Classifying a field list keeps all registered targets pairwise
/// distinct.
proof fn lemma_classify_fields_distinct_targets(
    rec_pos: usize,
    fields: Seq<FieldDataV>,
    record_name: Seq<char>,
    tagged: Seq<Seq<char>>,
    t0: Seq<ExprEntryV>,
    rs: Seq<ResolvedRecordV>,
)
    requires
        rec_pos == rs.len(),
        fields.len() <= usize::MAX,
        table_keys_distinct(t0),
        targets_pairwise_distinct(t0),
        forall|x: ConstraintId| #[trigger] table_has_target(t0, x) ==> target_ok(x, rs),
        spec_classify_fields(rec_pos, fields, record_name, tagged, t0) is Ok,
    ensures
        targets_pairwise_distinct(
            spec_classify_fields(rec_pos, fields, record_name, tagged, t0)->Ok_0.1,
        ),
    decreases fields.len(),
{
    if fields.len() == 0 {
    } else {
        lemma_classify_fields_distinct_targets(
            rec_pos,
            fields.drop_last(),
            record_name,
            tagged,
            t0,
            rs,
        );
        lemma_classify_fields_wf(rec_pos, fields.drop_last(), record_name, tagged, t0, rs);
        let (fs1, t1) = spec_classify_fields(
            rec_pos,
            fields.drop_last(),
            record_name,
            tagged,
            t0,
        )->Ok_0;
        lemma_classify_field_distinct_targets(
            rec_pos,
            (fields.len() - 1) as usize,
            fields.last(),
            record_name,
            tagged,
            t1,
            rs,
            fs1,
        );
    }
}

/// Classifying the selected records keeps all registered targets
/// pairwise distinct.
proof fn lemma_classify_records_distinct_targets(
    sel: Seq<usize>,
    records: Seq<RecordDataV>,
    tagged: Seq<Seq<char>>,
)
    requires
        sel.len() <= usize::MAX,
        forall|k: int|
            0 <= k < sel.len() ==> (#[trigger] records[sel[k] as int]).fields.len() <= usize::MAX,
        spec_classify_records(sel, records, tagged, Seq::empty()) is Ok,
    ensures
        targets_pairwise_distinct(
            spec_classify_records(sel, records, tagged, Seq::empty())->Ok_0.1,
        ),
    decreases sel.len(),
{
    if sel.len() > 0 {
        assert(forall|k: int|
            0 <= k < sel.drop_last().len() ==> (#[trigger] records[sel.drop_last()[k] as int])
                == records[sel[k] as int]);
        lemma_classify_records_distinct_targets(sel.drop_last(), records, tagged);
        lemma_classify_records_wf(sel.drop_last(), records, tagged);
        let (rs1, t1) = spec_classify_records(sel.drop_last(), records, tagged, Seq::empty())->Ok_0;
        let rec = records[sel.last() as int];
        assert(rec == records[sel[sel.len() - 1] as int]);
        lemma_classify_fields_distinct_targets(
            (sel.len() - 1) as usize,
            rec.fields,
            rec.name,
            tagged,
            t1,
            rs1,
        );
    }
}

/// Propagation isolation: in a prepared job no two table positions
/// share a resolution target, so one key's answer can never reach a
/// side registered under a different key.
pub proof fn lemma_prepare_targets_disjoint(tagged: Seq<Seq<char>>, records: Seq<RecordDataV>)
    requires
        tagged.len() <= usize::MAX,
        forall|m: int| 0 <= m < records.len() ==> (#[trigger] records[m]).fields.len()
            <= usize::MAX,
        spec_prepare(tagged, records) is Ok,
    ensures
        targets_pairwise_distinct(spec_prepare(tagged, records)->Ok_0.table),
{
    let sel = spec_select(tagged, records)->Ok_0;
    lemma_select_len(tagged, records);
    lemma_select_indices_bounded(tagged, records);
    lemma_classify_records_distinct_targets(sel.indices, records, tagged);
}

/// Propagation correctness, whole statement: in a prepared job,
/// applying the answer for key `a` sets exactly the sides registered
/// under `a` and leaves every side registered under any other key
/// exactly as it was.
pub proof fn lemma_answer_never_leaks(
    tagged: Seq<Seq<char>>,
    records: Seq<RecordDataV>,
    a: int,
    b: int,
    value: usize,
)
    requires
        tagged.len() <= usize::MAX,
        forall|m: int| 0 <= m < records.len() ==> (#[trigger] records[m]).fields.len()
            <= usize::MAX,
        spec_prepare(tagged, records) is Ok,
        0 <= a < spec_prepare(tagged, records)->Ok_0.table.len(),
        0 <= b < spec_prepare(tagged, records)->Ok_0.table.len(),
        a != b,
    ensures
        ({
            let p = spec_prepare(tagged, records)->Ok_0;
            let applied = spec_apply_targets(p.records, p.table[a].targets, value);
            &&& forall|j: int|
                0 <= j < p.table[a].targets.len() ==> #[trigger] side_value(
                    applied,
                    p.table[a].targets[j],
                ) == Some(value)
            &&& forall|j: int|
                0 <= j < p.table[b].targets.len() ==> #[trigger] side_value(
                    applied,
                    p.table[b].targets[j],
                ) == side_value(p.records, p.table[b].targets[j])
        }),
{
    let p = spec_prepare(tagged, records)->Ok_0;
    lemma_prepare_dedup_and_wf(tagged, records);
    lemma_prepare_targets_disjoint(tagged, records);
    assert(forall|j: int|
        0 <= j < p.table[a].targets.len() ==> target_ok(#[trigger] p.table[a].targets[j],
            p.records));
    lemma_apply_targets_exact(p.records, p.table[a].targets, value);
    assert forall|j: int| 0 <= j < p.table[b].targets.len() implies #[trigger] side_value(
        spec_apply_targets(p.records, p.table[a].targets, value),
        p.table[b].targets[j],
    ) == side_value(p.records, p.table[b].targets[j]) by {
        let x = p.table[b].targets[j];
        assert(target_ok(x, p.records));
        assert(!p.table[a].targets.contains(x)) by {
            if p.table[a].targets.contains(x) {
                let j2 = choose|j2: int|
                    0 <= j2 < p.table[a].targets.len() && p.table[a].targets[j2] == x;
                assert(p.table[a].targets[j2] == p.table[b].targets[j]);
            }
        }
    }
}


/// A field list only classifies when no field of it is fatal on its
/// own: every vector field carries a constraint, and every field that
/// is neither vector nor scalar names a tagged type.
proof fn lemma_classify_fields_no_fatal_field(
    rec_pos: usize,
    fields: Seq<FieldDataV>,
    record_name: Seq<char>,
    tagged: Seq<Seq<char>>,
    t0: Seq<ExprEntryV>,
    j: int,
)
    requires
        spec_classify_fields(rec_pos, fields, record_name, tagged, t0) is Ok,
        0 <= j < fields.len(),
    ensures
        is_vector_name(fields[j].subtype_name) ==> fields[j].constraint is Some,
        !is_vector_name(fields[j].subtype_name) && !is_scalar_name(fields[j].subtype_name)
            ==> seq_contains_name(tagged, fields[j].subtype_name),
    decreases fields.len(),
{
    if j == fields.len() - 1 {
        assert(fields.last() == fields[j]);
    } else {
        assert(fields.drop_last()[j] == fields[j]);
        lemma_classify_fields_no_fatal_field(
            rec_pos,
            fields.drop_last(),
            record_name,
            tagged,
            t0,
            j,
        );
    }
}

/// The selected records only classify when no field of any of them is
/// fatal on its own.
proof fn lemma_classify_records_no_fatal_field(
    sel: Seq<usize>,
    records: Seq<RecordDataV>,
    tagged: Seq<Seq<char>>,
    k: int,
    j: int,
)
    requires
        spec_classify_records(sel, records, tagged, Seq::empty()) is Ok,
        0 <= k < sel.len(),
        0 <= j < records[sel[k] as int].fields.len(),
    ensures
        ({
            let f = records[sel[k] as int].fields[j];
            &&& (is_vector_name(f.subtype_name) ==> f.constraint is Some)
            &&& (!is_vector_name(f.subtype_name) && !is_scalar_name(f.subtype_name)
                ==> seq_contains_name(tagged, f.subtype_name))
        }),
    decreases sel.len(),
{
    if k == sel.len() - 1 {
        assert(sel.last() == sel[k]);
        let rec = records[sel[k] as int];
        let t1 = spec_classify_records(sel.drop_last(), records, tagged, Seq::empty())->Ok_0.1;
        lemma_classify_fields_no_fatal_field(
            (sel.len() - 1) as usize,
            rec.fields,
            rec.name,
            tagged,
            t1,
            j,
        );
    } else {
        assert(sel.drop_last()[k] == sel[k]);
        lemma_classify_records_no_fatal_field(sel.drop_last(), records, tagged, k, j);
    }
}

/// Fatal on unconstrained, in general: whenever any field of any
/// selected record is a vector field without a range constraint, the
/// pipeline fails before any oracle invocation.  The companion
/// [`lemma_unconstrained_vector_fatal`] pins which error is returned
/// when that field is the first classification failure.
pub proof fn lemma_unconstrained_vector_rejected(
    tagged: Seq<Seq<char>>,
    records: Seq<RecordDataV>,
    k: int,
    j: int,
)
    requires
        spec_select(tagged, records) is Ok,
        ({
            let sel = spec_select(tagged, records)->Ok_0;
            &&& 0 <= k < sel.indices.len()
            &&& 0 <= j < records[sel.indices[k] as int].fields.len()
            &&& is_vector_name(records[sel.indices[k] as int].fields[j].subtype_name)
            &&& records[sel.indices[k] as int].fields[j].constraint is None
        }),
    ensures
        spec_prepare(tagged, records) is Err,
{
    let sel = spec_select(tagged, records)->Ok_0;
    if spec_classify_records(sel.indices, records, tagged, Seq::empty()) is Ok {
        lemma_classify_records_no_fatal_field(sel.indices, records, tagged, k, j);
    }
}

/// Fatal on untagged subtype, in general: whenever any field of any
/// selected record has a subtype that is neither the vector nor the
/// scalar kind nor a tagged name, the pipeline fails before code
/// generation.  The companion [`lemma_untagged_subtype_fatal`] pins
/// which error is returned when that field is the first classification
/// failure.
pub proof fn lemma_untagged_subtype_rejected(
    tagged: Seq<Seq<char>>,
    records: Seq<RecordDataV>,
    k: int,
    j: int,
)
    requires
        spec_select(tagged, records) is Ok,
        ({
            let sel = spec_select(tagged, records)->Ok_0;
            &&& 0 <= k < sel.indices.len()
            &&& 0 <= j < records[sel.indices[k] as int].fields.len()
            &&& !is_vector_name(records[sel.indices[k] as int].fields[j].subtype_name)
            &&& !is_scalar_name(records[sel.indices[k] as int].fields[j].subtype_name)
            &&& !seq_contains_name(
                tagged,
                records[sel.indices[k] as int].fields[j].subtype_name,
            )
        }),
    ensures
        spec_prepare(tagged, records) is Err,
{
    let sel = spec_select(tagged, records)->Ok_0;
    if spec_classify_records(sel.indices, records, tagged, Seq::empty()) is Ok {
        lemma_classify_records_no_fatal_field(sel.indices, records, tagged, k, j);
    }
}

} // verus!
