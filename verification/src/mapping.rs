//! Symbol and record extraction.
//!
//! One pass over a parsed design file collects three tables: attribute
//! specifications whose name matches a configured marker and whose target
//! is a type designator (the tagged-name set), record-type declarations
//! with their ordered field lists, and entity/package names for later
//! cross-referencing.  The pass visits declarations in the fixed
//! depth-first order of [`crate::visitor`], and records which package a
//! record belongs to, since the synthesized oracle program must import
//! that package.
//!
//! A bound expression is classified here only as far as its raw
//! constraint shape; anything beyond a one-dimensional array-style range
//! is a hard error, since no representation exists for it.

use vstd::prelude::*;

use crate::VwError;
use crate::ast::{
    AnyDesignUnit, AnyPrimaryUnit, AnySecondaryUnit, Declaration, DesignFile, DiscreteRange,
    ElementDeclaration, EntityClass, EntityName, RangeConstraint, SubtypeConstraint,
    TypeDefinition, VhdlDesignator, VhdlName,
};

verus! {

/// A symbol collected from the scanned sources.
#[derive(Debug)]
pub enum VwSymbol {
    Package(String),
    Entity(String),
    Constant(String),
    Record(RecordData),
}

/// A record type: name, ordered field list, and the package the record
/// is declared in, if any.
#[derive(Debug)]
pub struct RecordData {
    name: String,
    fields: Vec<FieldData>,
    pkg_name: Option<String>,
}

/// One record field: name, subtype name, and the raw range constraint
/// kept opaque for later resolution.
#[derive(Debug)]
pub struct FieldData {
    pub name: String,
    pub subtype_name: String,
    pub constraint: Option<RangeConstraint>,
}

/// The view of a [`FieldData`].
pub ghost struct FieldDataV {
    pub name: Seq<char>,
    pub subtype_name: Seq<char>,
    pub constraint: Option<RangeConstraint>,
}

/// The view of a [`RecordData`].
pub ghost struct RecordDataV {
    pub name: Seq<char>,
    pub fields: Seq<FieldDataV>,
    pub pkg_name: Option<Seq<char>>,
}

/// The view of a [`VwSymbol`].
pub ghost enum VwSymbolV {
    Package(Seq<char>),
    Entity(Seq<char>),
    Constant(Seq<char>),
    Record(RecordDataV),
}

/// The view of an optional name.
pub open spec fn opt_name_view(p: Option<String>) -> Option<Seq<char>> {
    match p {
        Some(s) => Some(s@),
        None => None,
    }
}

impl View for FieldData {
    type V = FieldDataV;

    open spec fn view(&self) -> FieldDataV {
        FieldDataV {
            name: self.name@,
            subtype_name: self.subtype_name@,
            constraint: self.constraint,
        }
    }
}

impl DeepView for FieldData {
    type V = FieldDataV;

    open spec fn deep_view(&self) -> FieldDataV {
        self.view()
    }
}

impl View for RecordData {
    type V = RecordDataV;

    closed spec fn view(&self) -> RecordDataV {
        RecordDataV {
            name: self.name@,
            fields: self.fields.deep_view(),
            pkg_name: opt_name_view(self.pkg_name),
        }
    }
}

impl DeepView for RecordData {
    type V = RecordDataV;

    open spec fn deep_view(&self) -> RecordDataV {
        self.view()
    }
}

impl View for VwSymbol {
    type V = VwSymbolV;

    open spec fn view(&self) -> VwSymbolV {
        match self {
            VwSymbol::Package(s) => VwSymbolV::Package(s@),
            VwSymbol::Entity(s) => VwSymbolV::Entity(s@),
            VwSymbol::Constant(s) => VwSymbolV::Constant(s@),
            VwSymbol::Record(r) => VwSymbolV::Record(r@),
        }
    }
}

impl DeepView for VwSymbol {
    type V = VwSymbolV;

    open spec fn deep_view(&self) -> VwSymbolV {
        self.view()
    }
}

impl RecordData {
    /// A record with the given name and no fields yet.
    pub fn new(name: &str) -> (r: Self)
        ensures
            r@.name == name@,
            r@.fields =~= Seq::<FieldDataV>::empty(),
            r@.pkg_name is None,
    {
        let r = RecordData { name: name.to_owned(), fields: Vec::new(), pkg_name: None };
        proof {
            assert(r.fields.deep_view() =~= Seq::<FieldDataV>::empty());
        }
        r
    }

    /// The record's name.
    pub fn get_name(&self) -> (r: &str)
        ensures
            r@ == self@.name,
    {
        self.name.as_str()
    }

    /// Whether the record's name is exactly the given text.
    pub fn name_is(&self, name: &String) -> (r: bool)
        ensures
            r == (self@.name == name@),
    {
        self.name == *name
    }

    /// The record's ordered field list.
    pub fn get_fields(&self) -> (r: &Vec<FieldData>)
        ensures
            r.deep_view() == self@.fields,
    {
        &self.fields
    }

    /// The package the record is declared in, if any.
    pub fn get_pkg_name(&self) -> (r: &Option<String>)
        ensures
            opt_name_view(*r) == self@.pkg_name,
    {
        &self.pkg_name
    }
}

/// A record's field list always fits machine bounds.
pub proof fn lemma_record_fields_fit(r: RecordData)
    ensures
        r@.fields.len() <= usize::MAX,
{
    assert(r.fields.deep_view().len() == r.fields@.len());
    assert(r.fields.len() == r.fields@.len());
}

/// The extraction result of a record element.
pub open spec fn spec_field_of(e: ElementDeclaration, record: String) -> Result<
    FieldDataV,
    VwError,
> {
    if e.idents.len() == 0 {
        Err(VwError::UnsupportedElement { record })
    } else {
        match e.subtype.type_mark {
            VhdlName::Designator(VhdlDesignator::Identifier(subtype)) => {
                match e.subtype.constraint {
                    None => Ok(
                        FieldDataV {
                            name: e.idents[0]@,
                            subtype_name: subtype@,
                            constraint: None,
                        },
                    ),
                    Some(c) => match spec_range_of(c, record) {
                        Ok(rc) => Ok(
                            FieldDataV {
                                name: e.idents[0]@,
                                subtype_name: subtype@,
                                constraint: Some(rc),
                            },
                        ),
                        Err(err) => Err(err),
                    },
                }
            },
            _ => Err(VwError::UnsupportedElement { record }),
        }
    }
}

/// The range constraint extracted from a subtype constraint: only a
/// one-dimensional array-style range is representable.
pub open spec fn spec_range_of(c: SubtypeConstraint, record: String) -> Result<
    RangeConstraint,
    VwError,
> {
    match c {
        SubtypeConstraint::Array(ranges) => {
            if ranges.len() == 0 {
                Err(VwError::UnsupportedConstraint { record })
            } else {
                match ranges[0] {
                    DiscreteRange::Bounds(rc) => Ok(rc),
                    DiscreteRange::Unsupported => Err(VwError::UnsupportedConstraint { record }),
                }
            }
        },
        SubtypeConstraint::Unsupported => Err(VwError::UnsupportedConstraint { record }),
    }
}

/// The extraction result of a whole element list, in order.
pub open spec fn spec_fields_of(elements: Seq<ElementDeclaration>, record: String) -> Result<
    Seq<FieldDataV>,
    VwError,
>
    decreases elements.len(),
{
    if elements.len() == 0 {
        Ok(Seq::empty())
    } else {
        match spec_fields_of(elements.drop_last(), record) {
            Ok(fields) => match spec_field_of(elements.last(), record) {
                Ok(f) => Ok(fields.push(f)),
                Err(e) => Err(e),
            },
            Err(e) => Err(e),
        }
    }
}

/// The three tables the extraction pass accumulates.
pub ghost struct ScanAcc {
    pub symbols: Seq<VwSymbolV>,
    pub records: Seq<RecordDataV>,
    pub tagged: Seq<Seq<char>>,
}

/// The accumulator state one declaration later.
pub open spec fn spec_scan_decl(
    acc: ScanAcc,
    d: Declaration,
    pkg: Option<String>,
    target: Seq<char>,
) -> Result<ScanAcc, VwError>
    decreases d,
{
    match d {
        Declaration::Type(td) => match td.def {
            TypeDefinition::Record(elements) => match spec_fields_of(elements@, td.ident) {
                Ok(fields) => Ok(
                    ScanAcc {
                        records: acc.records.push(
                            RecordDataV {
                                name: td.ident@,
                                fields,
                                pkg_name: opt_name_view(pkg),
                            },
                        ),
                        ..acc
                    },
                ),
                Err(e) => Err(e),
            },
            TypeDefinition::Other => Ok(acc),
        },
        Declaration::AttributeSpecification(aspec) => {
            if aspec.ident@ == target && aspec.entity_class == EntityClass::Type {
                match aspec.entity_name {
                    EntityName::Name(VhdlDesignator::Identifier(id)) => Ok(
                        ScanAcc { tagged: acc.tagged.push(id@), ..acc },
                    ),
                    _ => Ok(acc),
                }
            } else {
                Ok(acc)
            }
        },
        Declaration::SubprogramBody(body) => spec_scan_decls(
            acc,
            body.declarations@,
            pkg,
            target,
        ),
        _ => Ok(acc),
    }
}

/// The accumulator state after a declaration list, in order.
pub open spec fn spec_scan_decls(
    acc: ScanAcc,
    decls: Seq<Declaration>,
    pkg: Option<String>,
    target: Seq<char>,
) -> Result<ScanAcc, VwError>
    decreases decls,
{
    if decls.len() == 0 {
        Ok(acc)
    } else {
        match spec_scan_decl(acc, decls.first(), pkg, target) {
            Ok(a) => spec_scan_decls(a, decls.drop_first(), pkg, target),
            Err(e) => Err(e),
        }
    }
}

/// The accumulator state after one design unit.
pub open spec fn spec_scan_unit(acc: ScanAcc, unit: AnyDesignUnit, target: Seq<char>) -> Result<
    ScanAcc,
    VwError,
> {
    match unit {
        AnyDesignUnit::Primary(AnyPrimaryUnit::Entity(e)) => spec_scan_decls(
            ScanAcc { symbols: acc.symbols.push(VwSymbolV::Entity(e.ident@)), ..acc },
            e.decl@,
            None,
            target,
        ),
        AnyDesignUnit::Primary(AnyPrimaryUnit::Package(p)) => spec_scan_decls(
            ScanAcc { symbols: acc.symbols.push(VwSymbolV::Package(p.ident@)), ..acc },
            p.decl@,
            Some(p.ident),
            target,
        ),
        AnyDesignUnit::Primary(_) => Ok(acc),
        AnyDesignUnit::Secondary(AnySecondaryUnit::Architecture(a)) => spec_scan_decls(
            acc,
            a.decl@,
            None,
            target,
        ),
        AnyDesignUnit::Secondary(AnySecondaryUnit::PackageBody(b)) => spec_scan_decls(
            acc,
            b.decl@,
            None,
            target,
        ),
    }
}

/// The accumulator state after a list of design units, in order.
pub open spec fn spec_scan_units(
    acc: ScanAcc,
    units: Seq<AnyDesignUnit>,
    target: Seq<char>,
) -> Result<ScanAcc, VwError>
    decreases units.len(),
{
    if units.len() == 0 {
        Ok(acc)
    } else {
        match spec_scan_unit(acc, units.first(), target) {
            Ok(a) => spec_scan_units(a, units.drop_first(), target),
            Err(e) => Err(e),
        }
    }
}

/// The accumulator state after a whole design file.
pub open spec fn spec_scan_file(acc: ScanAcc, file: DesignFile, target: Seq<char>) -> Result<
    ScanAcc,
    VwError,
> {
    spec_scan_units(acc, file.design_units@, target)
}

/// The traversal consumer that collects tagged names, record definitions
/// and unit names.
#[derive(Debug)]
pub struct VwSymbolFinder {
    symbols: Vec<VwSymbol>,
    records: Vec<RecordData>,
    tagged_types: Vec<String>,
    target_attr: String,
}

/// The accumulator view of a finder's three tables.
pub closed spec fn finder_acc(f: VwSymbolFinder) -> ScanAcc {
    ScanAcc {
        symbols: f.symbols.deep_view(),
        records: f.records.deep_view(),
        tagged: f.tagged_types.deep_view(),
    }
}

impl VwSymbolFinder {
    /// The attribute name whose targets are tagged.
    pub closed spec fn target(self) -> Seq<char> {
        self.target_attr@
    }

    /// A finder that tags types marked with the given attribute name.
    pub fn new(target_attr: &str) -> (r: Self)
        ensures
            finder_acc(r).symbols =~= Seq::<VwSymbolV>::empty(),
            finder_acc(r).records =~= Seq::<RecordDataV>::empty(),
            finder_acc(r).tagged =~= Seq::<Seq<char>>::empty(),
            r.target() == target_attr@,
    {
        let r = VwSymbolFinder {
            symbols: Vec::new(),
            records: Vec::new(),
            tagged_types: Vec::new(),
            target_attr: target_attr.to_owned(),
        };
        proof {
            assert(r.symbols.deep_view() =~= Seq::<VwSymbolV>::empty());
            assert(r.records.deep_view() =~= Seq::<RecordDataV>::empty());
            assert(r.tagged_types.deep_view() =~= Seq::<Seq<char>>::empty());
        }
        r
    }

    /// The collected unit symbols.
    pub fn get_symbols(&self) -> (r: &Vec<VwSymbol>)
        ensures
            r.deep_view() == finder_acc(*self).symbols,
    {
        &self.symbols
    }

    /// The collected record definitions.
    pub fn get_records(&self) -> (r: &Vec<RecordData>)
        ensures
            r.deep_view() == finder_acc(*self).records,
    {
        &self.records
    }

    /// The collected tagged type names.
    pub fn get_tagged_types(&self) -> (r: &Vec<String>)
        ensures
            r.deep_view() == finder_acc(*self).tagged,
    {
        &self.tagged_types
    }

    /// Scan one design file, appending to the collected tables.
    ///
    /// Declarations are visited in the traversal order of
    /// [`crate::visitor`].  On an unsupported record element or
    /// constraint shape the error is returned and the tables are left
    /// exactly as they were.
    #[verifier::loop_isolation(false)]
    pub fn scan_design_file(&mut self, file: &DesignFile) -> (r: Result<(), VwError>)
        ensures
            final(self).target() == old(self).target(),
            match spec_scan_file(finder_acc(*old(self)), *file, old(self).target()) {
                Ok(a) => r is Ok && finder_acc(*final(self)) == a,
                Err(e) => r == Result::<(), VwError>::Err(e) && *final(self) == *old(self),
            },
    {
        let mut symbols: Vec<VwSymbol> = Vec::new();
        let mut records: Vec<RecordData> = Vec::new();
        let mut tagged: Vec<String> = Vec::new();
        let ghost acc0 = finder_acc(*self);
        proof {
            assert(symbols.deep_view() =~= Seq::<VwSymbolV>::empty());
            assert(records.deep_view() =~= Seq::<RecordDataV>::empty());
            assert(tagged.deep_view() =~= Seq::<Seq<char>>::empty());
        }
        let mut i: usize = 0;
        let ghost units = file.design_units@;
        let ghost target = self.target_attr@;
        let ghost whole = spec_scan_units(
            ScanAcc {
                symbols: acc0.symbols + symbols.deep_view(),
                records: acc0.records + records.deep_view(),
                tagged: acc0.tagged + tagged.deep_view(),
            },
            units,
            target,
        );
        proof {
            assert(acc0.symbols + symbols.deep_view() =~= acc0.symbols);
            assert(acc0.records + records.deep_view() =~= acc0.records);
            assert(acc0.tagged + tagged.deep_view() =~= acc0.tagged);
            assert(whole == spec_scan_file(acc0, *file, target));
            assert(units.skip(0) =~= units);
        }
        while i < file.design_units.len()
            invariant
                i <= units.len(),
                *self == *old(self),
                units == file.design_units@,
                target == self.target_attr@,
                acc0 == finder_acc(*self),
                whole == spec_scan_units(
                    ScanAcc {
                        symbols: acc0.symbols + symbols.deep_view(),
                        records: acc0.records + records.deep_view(),
                        tagged: acc0.tagged + tagged.deep_view(),
                    },
                    units.skip(i as int),
                    target,
                ),
            decreases units.len() - i,
        {
            proof {
                assert(units.skip(i as int).len() > 0);
                assert(units.skip(i as int).first() == units[i as int]);
                assert(units.skip(i as int).drop_first() =~= units.skip(i + 1));
            }
            let res = scan_unit(
                &mut symbols,
                &mut records,
                &mut tagged,
                &self.target_attr,
                &file.design_units[i],
                Ghost(acc0),
            );
            if let Err(e) = res {
                return Err(e);
            }
            i = i + 1;
        }
        proof {
            assert(units.skip(units.len() as int) =~= Seq::<AnyDesignUnit>::empty());
        }
        let ghost sy_dv = symbols.deep_view();
        let ghost re_dv = records.deep_view();
        let ghost tg_dv = tagged.deep_view();
        let ghost self_sy = self.symbols@;
        let ghost loc_sy = symbols@;
        let ghost self_re = self.records@;
        let ghost loc_re = records@;
        let ghost self_tg = self.tagged_types@;
        let ghost loc_tg = tagged@;
        self.symbols.append(&mut symbols);
        self.records.append(&mut records);
        self.tagged_types.append(&mut tagged);
        proof {
            assert forall|j: int|
                0 <= j < self.symbols@.len() implies self.symbols.deep_view()[j] == (
            acc0.symbols + sy_dv)[j] by {
                assert(self.symbols@[j] == (self_sy + loc_sy)[j]);
            }
            assert(self.symbols.deep_view() =~= acc0.symbols + sy_dv);
            assert forall|j: int|
                0 <= j < self.records@.len() implies self.records.deep_view()[j] == (
            acc0.records + re_dv)[j] by {
                assert(self.records@[j] == (self_re + loc_re)[j]);
            }
            assert(self.records.deep_view() =~= acc0.records + re_dv);
            assert forall|j: int|
                0 <= j < self.tagged_types@.len() implies self.tagged_types.deep_view()[j] == (
            acc0.tagged + tg_dv)[j] by {
                assert(self.tagged_types@[j] == (self_tg + loc_tg)[j]);
            }
            assert(self.tagged_types.deep_view() =~= acc0.tagged + tg_dv);
        }
        Ok(())
    }
}

/// Scan one design unit into the three local tables.
///
/// The tables must extend the caller's committed tables `Ghost(acc0)`;
/// on success they extend by exactly what the unit contributes, and on
/// an error the error equals the specified one.
fn scan_unit(
    symbols: &mut Vec<VwSymbol>,
    records: &mut Vec<RecordData>,
    tagged: &mut Vec<String>,
    target_attr: &String,
    unit: &AnyDesignUnit,
    acc0: Ghost<ScanAcc>,
) -> (r: Result<(), VwError>)
    ensures
        ({
            let pre = ScanAcc {
                symbols: acc0@.symbols + old(symbols).deep_view(),
                records: acc0@.records + old(records).deep_view(),
                tagged: acc0@.tagged + old(tagged).deep_view(),
            };
            let post = ScanAcc {
                symbols: acc0@.symbols + final(symbols).deep_view(),
                records: acc0@.records + final(records).deep_view(),
                tagged: acc0@.tagged + final(tagged).deep_view(),
            };
            match spec_scan_unit(pre, *unit, target_attr@) {
                Ok(a) => r is Ok && post == a,
                Err(e) => r == Result::<(), VwError>::Err(e),
            }
        }),
{
    match unit {
        AnyDesignUnit::Primary(AnyPrimaryUnit::Entity(e)) => {
            let ghost pre = ScanAcc {
                symbols: acc0@.symbols + symbols.deep_view(),
                records: acc0@.records + records.deep_view(),
                tagged: acc0@.tagged + tagged.deep_view(),
            };
            symbols.push(VwSymbol::Entity(e.ident.clone()));
            proof {
                assert(acc0@.symbols + symbols.deep_view() =~= pre.symbols.push(
                    VwSymbolV::Entity(e.ident@),
                ));
            }
            scan_decls(symbols, records, tagged, target_attr, &e.decl, &None, acc0)
        },
        AnyDesignUnit::Primary(AnyPrimaryUnit::Package(p)) => {
            let ghost pre = ScanAcc {
                symbols: acc0@.symbols + symbols.deep_view(),
                records: acc0@.records + records.deep_view(),
                tagged: acc0@.tagged + tagged.deep_view(),
            };
            symbols.push(VwSymbol::Package(p.ident.clone()));
            proof {
                assert(acc0@.symbols + symbols.deep_view() =~= pre.symbols.push(
                    VwSymbolV::Package(p.ident@),
                ));
            }
            let pkg = Some(p.ident.clone());
            let r = scan_decls(symbols, records, tagged, target_attr, &p.decl, &pkg, acc0);
            proof {
                assert(opt_name_view(pkg) == opt_name_view(Some(p.ident)));
            }
            r
        },
        AnyDesignUnit::Primary(_) => Ok(()),
        AnyDesignUnit::Secondary(AnySecondaryUnit::Architecture(a)) => scan_decls(
            symbols,
            records,
            tagged,
            target_attr,
            &a.decl,
            &None,
            acc0,
        ),
        AnyDesignUnit::Secondary(AnySecondaryUnit::PackageBody(b)) => scan_decls(
            symbols,
            records,
            tagged,
            target_attr,
            &b.decl,
            &None,
            acc0,
        ),
    }
}

/// Scan a declaration list in order.
#[verifier::loop_isolation(false)]
fn scan_decls(
    symbols: &mut Vec<VwSymbol>,
    records: &mut Vec<RecordData>,
    tagged: &mut Vec<String>,
    target_attr: &String,
    decls: &Vec<Declaration>,
    pkg: &Option<String>,
    acc0: Ghost<ScanAcc>,
) -> (r: Result<(), VwError>)
    ensures
        ({
            let pre = ScanAcc {
                symbols: acc0@.symbols + old(symbols).deep_view(),
                records: acc0@.records + old(records).deep_view(),
                tagged: acc0@.tagged + old(tagged).deep_view(),
            };
            let post = ScanAcc {
                symbols: acc0@.symbols + final(symbols).deep_view(),
                records: acc0@.records + final(records).deep_view(),
                tagged: acc0@.tagged + final(tagged).deep_view(),
            };
            match spec_scan_decls(pre, decls@, *pkg, target_attr@) {
                Ok(a) => r is Ok && post == a,
                Err(e) => r == Result::<(), VwError>::Err(e),
            }
        }),
    decreases decls,
{
    let ghost pre0 = ScanAcc {
        symbols: acc0@.symbols + symbols.deep_view(),
        records: acc0@.records + records.deep_view(),
        tagged: acc0@.tagged + tagged.deep_view(),
    };
    let ghost whole = spec_scan_decls(pre0, decls@, *pkg, target_attr@);
    proof {
        assert(decls@.skip(0) =~= decls@);
    }
    let mut i: usize = 0;
    while i < decls.len()
        invariant
            i <= decls@.len(),
            whole == spec_scan_decls(
                ScanAcc {
                    symbols: acc0@.symbols + symbols.deep_view(),
                    records: acc0@.records + records.deep_view(),
                    tagged: acc0@.tagged + tagged.deep_view(),
                },
                decls@.skip(i as int),
                *pkg,
                target_attr@,
            ),
        decreases decls@.len() - i,
    {
        proof {
            assert(decls@.skip(i as int).len() > 0);
            assert(decls@.skip(i as int).first() == decls@[i as int]);
            assert(decls@.skip(i as int).drop_first() =~= decls@.skip(i + 1));
        }
        let res = scan_decl(symbols, records, tagged, target_attr, &decls[i], pkg, acc0);
        if let Err(e) = res {
            return Err(e);
        }
        i = i + 1;
    }
    proof {
        assert(decls@.skip(decls@.len() as int) =~= Seq::<Declaration>::empty());
    }
    Ok(())
}

/// Scan one declaration.
fn scan_decl(
    symbols: &mut Vec<VwSymbol>,
    records: &mut Vec<RecordData>,
    tagged: &mut Vec<String>,
    target_attr: &String,
    decl: &Declaration,
    pkg: &Option<String>,
    acc0: Ghost<ScanAcc>,
) -> (r: Result<(), VwError>)
    ensures
        ({
            let pre = ScanAcc {
                symbols: acc0@.symbols + old(symbols).deep_view(),
                records: acc0@.records + old(records).deep_view(),
                tagged: acc0@.tagged + old(tagged).deep_view(),
            };
            let post = ScanAcc {
                symbols: acc0@.symbols + final(symbols).deep_view(),
                records: acc0@.records + final(records).deep_view(),
                tagged: acc0@.tagged + final(tagged).deep_view(),
            };
            match spec_scan_decl(pre, *decl, *pkg, target_attr@) {
                Ok(a) => r is Ok && post == a,
                Err(e) => r == Result::<(), VwError>::Err(e),
            }
        }),
    decreases decl,
{
    match decl {
        Declaration::Type(td) => {
            match &td.def {
                TypeDefinition::Record(elements) => {
                    let ghost pre = ScanAcc {
                        symbols: acc0@.symbols + symbols.deep_view(),
                        records: acc0@.records + records.deep_view(),
                        tagged: acc0@.tagged + tagged.deep_view(),
                    };
                    match record_fields(elements, &td.ident) {
                        Ok(fields) => {
                            let pkg_name = match pkg {
                                Some(s) => Some(s.clone()),
                                None => None,
                            };
                            let rd = RecordData { name: td.ident.clone(), fields, pkg_name };
                            proof {
                                assert(opt_name_view(rd.pkg_name) == opt_name_view(*pkg));
                            }
                            records.push(rd);
                            proof {
                                assert(acc0@.records + records.deep_view() =~= pre.records.push(
                                    rd@,
                                ));
                            }
                            Ok(())
                        },
                        Err(e) => Err(e),
                    }
                },
                TypeDefinition::Other => Ok(()),
            }
        },
        Declaration::AttributeSpecification(aspec) => {
            if aspec.ident == *target_attr && aspec.entity_class == EntityClass::Type {
                match &aspec.entity_name {
                    EntityName::Name(VhdlDesignator::Identifier(id)) => {
                        let ghost pre_tagged = acc0@.tagged + tagged.deep_view();
                        tagged.push(id.clone());
                        proof {
                            assert(acc0@.tagged + tagged.deep_view() =~= pre_tagged.push(id@));
                        }
                        Ok(())
                    },
                    _ => Ok(()),
                }
            } else {
                Ok(())
            }
        },
        Declaration::SubprogramBody(body) => scan_decls(
            symbols,
            records,
            tagged,
            target_attr,
            &body.declarations,
            pkg,
            acc0,
        ),
        _ => Ok(()),
    }
}

/// Extract the field list of a record's elements, in order.
#[verifier::loop_isolation(false)]
fn record_fields(elements: &Vec<ElementDeclaration>, record: &String) -> (r: Result<
    Vec<FieldData>,
    VwError,
>)
    ensures
        match spec_fields_of(elements@, *record) {
            Ok(fields) => r is Ok && r->Ok_0.deep_view() == fields,
            Err(e) => r == Result::<Vec<FieldData>, VwError>::Err(e),
        },
{
    let mut fields: Vec<FieldData> = Vec::new();
    proof {
        assert(fields.deep_view() =~= Seq::<FieldDataV>::empty());
        assert(elements@.subrange(0, 0) =~= Seq::<ElementDeclaration>::empty());
    }
    let mut i: usize = 0;
    while i < elements.len()
        invariant
            i <= elements@.len(),
            spec_fields_of(elements@.subrange(0, i as int), *record) == Ok::<_, VwError>(
                fields.deep_view(),
            ),
        decreases elements@.len() - i,
    {
        let ghost prefix = elements@.subrange(0, i as int);
        proof {
            assert(elements@.subrange(0, i + 1).drop_last() =~= prefix);
            assert(elements@.subrange(0, i + 1).last() == elements@[i as int]);
        }
        match element_field(&elements[i], record) {
            Ok(f) => {
                let ghost old_dv = fields.deep_view();
                fields.push(f);
                proof {
                    assert(fields.deep_view() =~= old_dv.push(f@));
                }
            },
            Err(e) => {
                proof {
                    lemma_fields_of_error(elements@, i as int, *record);
                }
                return Err(e);
            },
        }
        i = i + 1;
    }
    proof {
        assert(elements@.subrange(0, elements@.len() as int) =~= elements@);
    }
    Ok(fields)
}

/// If a prefix extracts cleanly and the next element fails, the whole
/// list fails with that element's error.
proof fn lemma_fields_of_error(elements: Seq<ElementDeclaration>, i: int, record: String)
    requires
        0 <= i < elements.len(),
        spec_fields_of(elements.subrange(0, i), record) is Ok,
        spec_field_of(elements[i], record) is Err,
    ensures
        spec_fields_of(elements, record) == Result::<Seq<FieldDataV>, VwError>::Err(
            spec_field_of(elements[i], record)->Err_0,
        ),
    decreases elements.len(),
{
    if elements.len() == 0 {
    } else if i == elements.len() - 1 {
        assert(elements.subrange(0, i) =~= elements.drop_last());
        assert(elements.last() == elements[i]);
    } else {
        assert(elements.drop_last().subrange(0, i) =~= elements.subrange(0, i));
        assert(elements.drop_last()[i] == elements[i]);
        lemma_fields_of_error(elements.drop_last(), i, record);
    }
}

/// Extract one field from one record element.
fn element_field(e: &ElementDeclaration, record: &String) -> (r: Result<FieldData, VwError>)
    ensures
        match spec_field_of(*e, *record) {
            Ok(f) => r is Ok && r->Ok_0@ == f,
            Err(err) => r == Result::<FieldData, VwError>::Err(err),
        },
{
    if e.idents.len() == 0 {
        return Err(VwError::UnsupportedElement { record: record.clone() });
    }
    let subtype: &String = match &e.subtype.type_mark {
        VhdlName::Designator(VhdlDesignator::Identifier(s)) => s,
        _ => {
            return Err(VwError::UnsupportedElement { record: record.clone() });
        },
    };
    let constraint: Option<RangeConstraint> = match &e.subtype.constraint {
        None => None,
        Some(c) => match constraint_range(c, record) {
            Ok(rc) => Some(rc),
            Err(err) => {
                return Err(err);
            },
        },
    };
    Ok(FieldData { name: e.idents[0].clone(), subtype_name: subtype.clone(), constraint })
}

/// Extract the single representable range of a subtype constraint.
fn constraint_range(c: &SubtypeConstraint, record: &String) -> (r: Result<
    RangeConstraint,
    VwError,
>)
    ensures
        match spec_range_of(*c, *record) {
            Ok(rc) => r is Ok && r->Ok_0 == rc,
            Err(err) => r == Result::<RangeConstraint, VwError>::Err(err),
        },
{
    match c {
        SubtypeConstraint::Array(ranges) => {
            if ranges.len() == 0 {
                Err(VwError::UnsupportedConstraint { record: record.clone() })
            } else {
                match &ranges[0] {
                    DiscreteRange::Bounds(rc) => Ok(rc.clone()),
                    DiscreteRange::Unsupported => Err(
                        VwError::UnsupportedConstraint { record: record.clone() },
                    ),
                }
            }
        },
        SubtypeConstraint::Unsupported => Err(
            VwError::UnsupportedConstraint { record: record.clone() },
        ),
    }
}

} // verus!
