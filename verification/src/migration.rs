//! The component migration engine.
//!
//! A patch may change the in-memory shape of a record type. Every record type
//! that opts in is registered with a descriptor: its stable type identity, the
//! shape signature it was compiled with, and a field table keyed by field
//! name. Once per tick, after the function-pointer refresh, the engine
//! compares each registered signature against the currently compiled one and,
//! where they differ, converts every live instance of that type in place:
//! fields present under the same name with the same type are copied by value,
//! removed or type-incompatible fields are dropped, newly introduced fields
//! take their declared default. An instance that does not even conform to the
//! old shape is replaced by the new shape's all-default record rather than
//! aborting the pass: migration is best-effort and total across the store.
//!
//! Field names are interned to stable numeric identifiers; values are plain
//! integers, text, or flags.

use vstd::prelude::*;

verus! {

/// The type of one field of a migratable record.
#[derive(Clone, Copy, Debug, PartialEq, Eq, Structural)]
pub enum FieldType {
    /// A signed integer field.
    Int,
    /// A text field.
    Text,
    /// A boolean field.
    Flag,
}

/// One field's value inside a live record instance.
#[derive(Clone, Debug, PartialEq, Eq)]
pub enum FieldValue {
    /// A signed integer.
    Int(i64),
    /// A piece of text.
    Text(String),
    /// A boolean flag.
    Flag(bool),
}

/// Whether a value is of the given field type.
pub open spec fn has_type(v: FieldValue, t: FieldType) -> bool {
    match v {
        FieldValue::Int(_) => t == FieldType::Int,
        FieldValue::Text(_) => t == FieldType::Text,
        FieldValue::Flag(_) => t == FieldType::Flag,
    }
}

impl FieldValue {
    /// An equal copy of this value.
    pub fn duplicate(&self) -> (r: FieldValue)
        ensures
            r == *self,
    {
        match self {
            FieldValue::Int(i) => FieldValue::Int(*i),
            FieldValue::Text(s) => FieldValue::Text(s.clone()),
            FieldValue::Flag(b) => FieldValue::Flag(*b),
        }
    }

    /// Whether this value is of the given field type.
    pub fn is_of_type(&self, t: FieldType) -> (r: bool)
        ensures
            r == has_type(*self, t),
    {
        match self {
            FieldValue::Int(_) => t == FieldType::Int,
            FieldValue::Text(_) => t == FieldType::Text,
            FieldValue::Flag(_) => t == FieldType::Flag,
        }
    }
}

/// One entry of a record type's field table: the interned field name, the
/// field's type, and the default a newly introduced field starts from.
#[derive(Clone, Debug, PartialEq, Eq)]
pub struct Field {
    /// Interned field name, stable across patches.
    pub name: u64,
    /// The field's type in this shape.
    pub ty: FieldType,
    /// The declared default for this field.
    pub default: FieldValue,
}

impl Field {
    /// An equal copy of this field-table entry.
    pub fn duplicate(&self) -> (r: Field)
        ensures
            r == *self,
    {
        Field { name: self.name, ty: self.ty, default: self.default.duplicate() }
    }
}

/// A field table is well formed when no name occurs twice and every declared
/// default is of its field's type.
pub open spec fn fields_wf(fields: Seq<Field>) -> bool {
    &&& forall|i: int, j: int|
        0 <= i < j < fields.len() ==> (#[trigger] fields[i]).name != (#[trigger] fields[j]).name
    &&& forall|i: int| 0 <= i < fields.len() ==> has_type((#[trigger] fields[i]).default, fields[i].ty)
}

/// Whether the field table holds a field of this name.
pub open spec fn has_field(fields: Seq<Field>, name: u64) -> bool {
    exists|i: int| 0 <= i < fields.len() && (#[trigger] fields[i]).name == name
}

/// The slot of the field of this name (meaningful only when `has_field` and
/// the names are unique).
pub open spec fn field_index(fields: Seq<Field>, name: u64) -> int {
    choose|i: int| 0 <= i < fields.len() && (#[trigger] fields[i]).name == name
}

/// With names unique, the field found at slot `i` is the one `field_index`
/// points at.
pub proof fn lemma_field_at(fields: Seq<Field>, i: int)
    requires
        fields_wf(fields),
        0 <= i < fields.len(),
    ensures
        has_field(fields, fields[i].name),
        field_index(fields, fields[i].name) == i,
{
    let name = fields[i].name;
    assert(exists|k: int| 0 <= k < fields.len() && (#[trigger] fields[k]).name == name);
    let k = choose|k: int| 0 <= k < fields.len() && (#[trigger] fields[k]).name == name;
    assert(k == i);
}

/// A record type's shape: the signature it was compiled with, and its field
/// table. The signature is a fingerprint of the layout; two shapes of the
/// same type with different signatures differ in layout.
#[derive(Clone, Debug, PartialEq, Eq)]
pub struct Shape {
    /// Fingerprint of this layout, used to detect schema changes.
    pub sig: u64,
    /// The field table, keyed by interned field name.
    pub fields: Vec<Field>,
}

impl Shape {
    /// A well-formed shape: unique field names, defaults of the right type.
    pub open spec fn wf(self) -> bool {
        fields_wf(self.fields@)
    }

    /// Build a shape, rejecting a field table with a repeated name or with a
    /// default of the wrong type.
    pub fn new(sig: u64, fields: Vec<Field>) -> (r: Option<Shape>)
        ensures
            r is Some <==> fields_wf(fields@),
            r is Some ==> r->Some_0.sig == sig && r->Some_0.fields@ == fields@,
    {
        if fields_well_formed(&fields) {
            Some(Shape { sig, fields })
        } else {
            None
        }
    }

    /// An equal copy of this shape.
    pub fn duplicate(&self) -> (r: Shape)
        ensures
            r.sig == self.sig,
            r.fields@ == self.fields@,
    {
        let n = self.fields.len();
        let mut out: Vec<Field> = Vec::new();
        let mut k: usize = 0;
        while k < n
            invariant
                n == self.fields@.len(),
                k <= n,
                out@.len() == k,
                forall|i: int| 0 <= i < k ==> #[trigger] out@[i] == self.fields@[i],
            decreases n - k,
        {
            out.push(self.fields[k].duplicate());
            k += 1;
        }
        proof {
            assert(out@ =~= self.fields@);
        }
        Shape { sig: self.sig, fields: out }
    }
}

/// Whether a field table is well formed, checked at run time so that a
/// malformed registration is rejected rather than assumed away.
pub fn fields_well_formed(fields: &Vec<Field>) -> (r: bool)
    ensures
        r == fields_wf(fields@),
{
    let n = fields.len();
    let mut k: usize = 0;
    while k < n
        invariant
            n == fields@.len(),
            k <= n,
            forall|i: int, j: int|
                0 <= i < j < fields@.len() && i < k ==> (#[trigger] fields@[i]).name != (#[trigger] fields@[j]).name,
            forall|i: int| 0 <= i < k ==> has_type((#[trigger] fields@[i]).default, fields@[i].ty),
        decreases n - k,
    {
        if !fields[k].default.is_of_type(fields[k].ty) {
            return false;
        }
        let mut j: usize = k + 1;
        while j < n
            invariant
                n == fields@.len(),
                k < j || j == k + 1,
                k < n,
                j <= n,
                forall|m: int| k < m < j ==> (#[trigger] fields@[m]).name != fields@[k as int].name,
            decreases n - j,
        {
            if fields[j].name == fields[k].name {
                return false;
            }
            j += 1;
        }
        k += 1;
    }
    true
}

/// Find the slot of the field of this name, by linear scan of the table.
pub fn find_field(fields: &Vec<Field>, name: u64) -> (r: Option<usize>)
    requires
        fields_wf(fields@),
    ensures
        r is Some <==> has_field(fields@, name),
        r is Some ==> r->Some_0 == field_index(fields@, name) && r->Some_0 < fields@.len(),
{
    let n = fields.len();
    let mut k: usize = 0;
    while k < n
        invariant
            fields_wf(fields@),
            n == fields@.len(),
            k <= n,
            forall|i: int| 0 <= i < k ==> (#[trigger] fields@[i]).name != name,
        decreases n - k,
    {
        if fields[k].name == name {
            proof {
                lemma_field_at(fields@, k as int);
            }
            return Some(k);
        }
        k += 1;
    }
    None
}

/// Whether a value row conforms to a field table: one value per field, each
/// of its field's type.
pub open spec fn conforms(vals: Seq<FieldValue>, fields: Seq<Field>) -> bool {
    &&& vals.len() == fields.len()
    &&& forall|i: int| 0 <= i < fields.len() ==> has_type(#[trigger] vals[i], fields[i].ty)
}

/// The all-default value row of a field table.
pub open spec fn default_values(fields: Seq<Field>) -> Seq<FieldValue> {
    Seq::new(fields.len(), |j: int| fields[j].default)
}

/// What one field of the new shape holds after migration: the old value if
/// the old shape has a field of the same name and the same type, the declared
/// default otherwise (so removed and type-incompatible fields are dropped and
/// new fields start from their default).
pub open spec fn migrated_value(old_fields: Seq<Field>, old_vals: Seq<FieldValue>, f: Field) -> FieldValue {
    if has_field(old_fields, f.name) && old_fields[field_index(old_fields, f.name)].ty == f.ty {
        old_vals[field_index(old_fields, f.name)]
    } else {
        f.default
    }
}

/// What a whole value row becomes under migration from the old field table to
/// the new one: field-by-field preservation when the row conforms to the old
/// table, the new table's all-default row when it does not (a record that
/// cannot be converted is replaced, never left behind).
pub open spec fn spec_migrated_values(
    old_fields: Seq<Field>,
    new_fields: Seq<Field>,
    vals: Seq<FieldValue>,
) -> Seq<FieldValue> {
    if conforms(vals, old_fields) {
        Seq::new(new_fields.len(), |j: int| migrated_value(old_fields, vals, new_fields[j]))
    } else {
        default_values(new_fields)
    }
}

/// Migration is total: whatever row comes in, the migrated row conforms to
/// the new field table.
pub proof fn lemma_migrated_conforms(
    old_fields: Seq<Field>,
    new_fields: Seq<Field>,
    vals: Seq<FieldValue>,
)
    requires
        fields_wf(new_fields),
    ensures
        conforms(spec_migrated_values(old_fields, new_fields, vals), new_fields),
{
    let out = spec_migrated_values(old_fields, new_fields, vals);
    assert forall|j: int| 0 <= j < new_fields.len() implies has_type(#[trigger] out[j], new_fields[j].ty) by {
        if conforms(vals, old_fields) {
            let f = new_fields[j];
            if has_field(old_fields, f.name) && old_fields[field_index(old_fields, f.name)].ty == f.ty {
                let i = field_index(old_fields, f.name);
                assert(0 <= i < old_fields.len());
                assert(has_type(vals[i], old_fields[i].ty));
            }
        }
    }
}

/// Whether a value row conforms to a field table, checked at run time.
pub fn row_conforms(vals: &Vec<FieldValue>, fields: &Vec<Field>) -> (r: bool)
    ensures
        r == conforms(vals@, fields@),
{
    let n = fields.len();
    if vals.len() != n {
        return false;
    }
    let mut k: usize = 0;
    while k < n
        invariant
            n == fields@.len(),
            vals@.len() == n,
            k <= n,
            forall|i: int| 0 <= i < k ==> has_type(#[trigger] vals@[i], fields@[i].ty),
        decreases n - k,
    {
        if !vals[k].is_of_type(fields[k].ty) {
            return false;
        }
        k += 1;
    }
    true
}

/// The all-default value row of a field table, built at run time.
pub fn default_row(fields: &Vec<Field>) -> (r: Vec<FieldValue>)
    ensures
        r@ == default_values(fields@),
{
    let n = fields.len();
    let mut out: Vec<FieldValue> = Vec::new();
    let mut k: usize = 0;
    while k < n
        invariant
            n == fields@.len(),
            k <= n,
            out@.len() == k,
            forall|i: int| 0 <= i < k ==> #[trigger] out@[i] == fields@[i].default,
        decreases n - k,
    {
        out.push(fields[k].default.duplicate());
        k += 1;
    }
    proof {
        assert(out@ =~= default_values(fields@));
    }
    out
}

/// Convert one value row from the old shape to the new one: every field
/// present by name in both tables with an unchanged type keeps its value;
/// everything else is dropped or defaulted; a row that does not conform to
/// the old shape is replaced by the new shape's defaults.
pub fn migrate_row(old_shape: &Shape, new_shape: &Shape, vals: &Vec<FieldValue>) -> (r: Vec<FieldValue>)
    requires
        old_shape.wf(),
        new_shape.wf(),
    ensures
        r@ == spec_migrated_values(old_shape.fields@, new_shape.fields@, vals@),
        conforms(r@, new_shape.fields@),
{
    proof {
        lemma_migrated_conforms(old_shape.fields@, new_shape.fields@, vals@);
    }
    if !row_conforms(vals, &old_shape.fields) {
        return default_row(&new_shape.fields);
    }
    let n = new_shape.fields.len();
    let mut out: Vec<FieldValue> = Vec::new();
    let mut j: usize = 0;
    while j < n
        invariant
            old_shape.wf(),
            new_shape.wf(),
            conforms(vals@, old_shape.fields@),
            n == new_shape.fields@.len(),
            j <= n,
            out@.len() == j,
            forall|m: int| 0 <= m < j ==> #[trigger] out@[m] == migrated_value(
                old_shape.fields@,
                vals@,
                new_shape.fields@[m],
            ),
        decreases n - j,
    {
        let name = new_shape.fields[j].name;
        let ty = new_shape.fields[j].ty;
        let mut copied = false;
        if let Some(i) = find_field(&old_shape.fields, name) {
            if old_shape.fields[i].ty == ty {
                out.push(vals[i].duplicate());
                copied = true;
            }
        }
        if !copied {
            out.push(new_shape.fields[j].default.duplicate());
        }
        j += 1;
    }
    proof {
        assert(out@ =~= spec_migrated_values(old_shape.fields@, new_shape.fields@, vals@));
    }
    out
}

/// One registered migratable record type: its stable type identity and the
/// shape it is known to have. In the registry the shape is the one the
/// instances in the store were written with; in the catalog of currently
/// compiled shapes it is the one the running code expects.
#[derive(Clone, Debug, PartialEq, Eq)]
pub struct Descriptor {
    /// Stable identity of the record type, constant across patches.
    pub type_id: u64,
    /// The shape associated with that type.
    pub shape: Shape,
}

/// A descriptor list is well formed when no type identity occurs twice and
/// every shape in it is well formed.
pub open spec fn descs_wf(s: Seq<Descriptor>) -> bool {
    &&& forall|i: int, j: int|
        0 <= i < j < s.len() ==> (#[trigger] s[i]).type_id != (#[trigger] s[j]).type_id
    &&& forall|i: int| 0 <= i < s.len() ==> (#[trigger] s[i]).shape.wf()
}

/// Whether the list holds a descriptor for this type.
pub open spec fn descs_has(s: Seq<Descriptor>, type_id: u64) -> bool {
    exists|i: int| 0 <= i < s.len() && (#[trigger] s[i]).type_id == type_id
}

/// The slot of this type's descriptor (meaningful only when `descs_has` and
/// the type identities are unique).
pub open spec fn descs_index(s: Seq<Descriptor>, type_id: u64) -> int {
    choose|i: int| 0 <= i < s.len() && (#[trigger] s[i]).type_id == type_id
}

/// The shape registered for this type.
pub open spec fn descs_shape(s: Seq<Descriptor>, type_id: u64) -> Shape {
    s[descs_index(s, type_id)].shape
}

/// With type identities unique, the descriptor at slot `i` is the one
/// `descs_index` points at.
pub proof fn lemma_descs_at(s: Seq<Descriptor>, i: int)
    requires
        descs_wf(s),
        0 <= i < s.len(),
    ensures
        descs_has(s, s[i].type_id),
        descs_index(s, s[i].type_id) == i,
        descs_shape(s, s[i].type_id) == s[i].shape,
{
    let tid = s[i].type_id;
    assert(exists|k: int| 0 <= k < s.len() && (#[trigger] s[k]).type_id == tid);
    let k = choose|k: int| 0 <= k < s.len() && (#[trigger] s[k]).type_id == tid;
    assert(k == i);
}

/// Whether a patch left this type with a changed shape: it is registered, the
/// running code has a shape for it, and the two signatures differ.
pub open spec fn affected(regs: Seq<Descriptor>, cat: Seq<Descriptor>, type_id: u64) -> bool {
    &&& descs_has(regs, type_id)
    &&& descs_has(cat, type_id)
    &&& descs_shape(regs, type_id).sig != descs_shape(cat, type_id).sig
}

/// The shapes the running code is currently compiled with, one per record
/// type that opted into migration. Rebuilt from the binary after each patch;
/// the engine compares it against the registry to detect schema changes.
#[derive(Debug)]
pub struct ShapeCatalog {
    descs: Vec<Descriptor>,
}

impl ShapeCatalog {
    /// The descriptors this catalog holds.
    pub closed spec fn view(self) -> Seq<Descriptor> {
        self.descs@
    }

    /// Unique type identities, well-formed shapes.
    pub open spec fn wf(self) -> bool {
        descs_wf(self@)
    }

    /// An empty catalog.
    pub fn new() -> (c: ShapeCatalog)
        ensures
            c.wf(),
            c@ == Seq::<Descriptor>::empty(),
    {
        ShapeCatalog { descs: Vec::new() }
    }

    /// Record the currently compiled shape of a type. A type already present
    /// is left as it was.
    pub fn add(&mut self, type_id: u64, shape: Shape)
        requires
            old(self).wf(),
            shape.wf(),
        ensures
            final(self).wf(),
            descs_has(old(self)@, type_id) ==> final(self)@ == old(self)@,
            !descs_has(old(self)@, type_id) ==> final(self)@ == old(self)@.push(
                Descriptor { type_id, shape },
            ),
    {
        if !self.contains(type_id) {
            self.descs.push(Descriptor { type_id, shape });
        }
    }

    /// Whether the catalog has a shape for this type.
    pub fn contains(&self, type_id: u64) -> (r: bool)
        ensures
            r == descs_has(self@, type_id),
    {
        let n = self.descs.len();
        let mut k: usize = 0;
        while k < n
            invariant
                n == self.descs@.len(),
                k <= n,
                forall|i: int| 0 <= i < k ==> (#[trigger] self.descs@[i]).type_id != type_id,
            decreases n - k,
        {
            if self.descs[k].type_id == type_id {
                return true;
            }
            k += 1;
        }
        false
    }

    /// The currently compiled shape of this type, if it is in the catalog.
    pub fn lookup(&self, type_id: u64) -> (r: Option<&Shape>)
        requires
            self.wf(),
        ensures
            r is Some <==> descs_has(self@, type_id),
            r is Some ==> *r->Some_0 == descs_shape(self@, type_id),
    {
        let n = self.descs.len();
        let mut k: usize = 0;
        while k < n
            invariant
                self.wf(),
                n == self.descs@.len(),
                k <= n,
                forall|i: int| 0 <= i < k ==> (#[trigger] self.descs@[i]).type_id != type_id,
            decreases n - k,
        {
            if self.descs[k].type_id == type_id {
                proof {
                    lemma_descs_at(self@, k as int);
                }
                return Some(&self.descs[k].shape);
            }
            k += 1;
        }
        None
    }
}

/// One live record instance in the store: attached to an entity, of a record
/// type, holding one value per field of that type's shape. Migration rewrites
/// the values in place; the entity and the type identity never change.
#[derive(Clone, Debug, PartialEq, Eq)]
pub struct Instance {
    /// The entity this record is attached to.
    pub entity: u64,
    /// The record type of this instance.
    pub type_id: u64,
    /// The field values, one per field of the shape the instance was written
    /// with.
    pub values: Vec<FieldValue>,
}

/// What one instance's value row looks like after the migration pass has
/// handled the first `k` registered descriptors: converted if its type is
/// among them and its shape changed, untouched otherwise.
pub open spec fn row_after(
    inst: Instance,
    regs: Seq<Descriptor>,
    cat: Seq<Descriptor>,
    k: int,
) -> Seq<FieldValue> {
    if affected(regs, cat, inst.type_id) && descs_index(regs, inst.type_id) < k {
        spec_migrated_values(
            descs_shape(regs, inst.type_id).fields@,
            descs_shape(cat, inst.type_id).fields@,
            inst.values@,
        )
    } else {
        inst.values@
    }
}

/// What one completed migration pass leaves behind, relating the registry,
/// the store and the conversion flag before and after: every registered type
/// whose stored signature differs from the compiled one has its stored shape
/// refreshed and all its live instances converted in place (entity and type
/// identity preserved); every other descriptor and every other instance is
/// untouched; and something was converted exactly when some instance's type
/// was affected.
pub open spec fn migration_pass_post(
    regs0: Seq<Descriptor>,
    regs1: Seq<Descriptor>,
    cat: Seq<Descriptor>,
    store0: Seq<Instance>,
    store1: Seq<Instance>,
    changed: bool,
) -> bool {
    &&& regs1.len() == regs0.len()
    &&& forall|m: int| 0 <= m < regs0.len() ==> (#[trigger] regs1[m]).type_id == regs0[m].type_id
    &&& forall|m: int| 0 <= m < regs0.len() ==>
        if affected(regs0, cat, (#[trigger] regs0[m]).type_id) {
            regs1[m].shape.sig == descs_shape(cat, regs0[m].type_id).sig && regs1[m].shape.fields@
                == descs_shape(cat, regs0[m].type_id).fields@
        } else {
            regs1[m] == regs0[m]
        }
    &&& store1.len() == store0.len()
    &&& forall|i: int| 0 <= i < store0.len() ==>
        if affected(regs0, cat, (#[trigger] store0[i]).type_id) {
            store1[i].entity == store0[i].entity && store1[i].type_id == store0[i].type_id
                && store1[i].values@ == row_after(store0[i], regs0, cat, regs0.len() as int)
        } else {
            store1[i] == store0[i]
        }
    &&& changed <==> exists|i: int|
        0 <= i < store0.len() && affected(regs0, cat, (#[trigger] store0[i]).type_id)
}

/// The registry of migratable record types and the migration pass itself.
#[derive(Debug)]
pub struct ComponentMigrations {
    descs: Vec<Descriptor>,
}

impl ComponentMigrations {
    /// The registered descriptors, in registration order.
    pub closed spec fn view(self) -> Seq<Descriptor> {
        self.descs@
    }

    /// Unique type identities, well-formed shapes.
    pub open spec fn wf(self) -> bool {
        descs_wf(self@)
    }

    /// An empty registry.
    pub fn new() -> (r: ComponentMigrations)
        ensures
            r.wf(),
            r@ == Seq::<Descriptor>::empty(),
    {
        ComponentMigrations { descs: Vec::new() }
    }

    /// Opt a record type into migration, capturing the shape it is compiled
    /// with right now. Called once per type, typically at startup; a second
    /// registration of the same type is ignored.
    pub fn register_migratable(&mut self, type_id: u64, shape: Shape)
        requires
            old(self).wf(),
            shape.wf(),
        ensures
            final(self).wf(),
            descs_has(old(self)@, type_id) ==> final(self)@ == old(self)@,
            !descs_has(old(self)@, type_id) ==> final(self)@ == old(self)@.push(
                Descriptor { type_id, shape },
            ),
    {
        if !self.is_registered(type_id) {
            self.descs.push(Descriptor { type_id, shape });
        }
    }

    /// Whether a type is registered.
    pub fn is_registered(&self, type_id: u64) -> (r: bool)
        ensures
            r == descs_has(self@, type_id),
    {
        let n = self.descs.len();
        let mut k: usize = 0;
        while k < n
            invariant
                n == self.descs@.len(),
                k <= n,
                forall|i: int| 0 <= i < k ==> (#[trigger] self.descs@[i]).type_id != type_id,
            decreases n - k,
        {
            if self.descs[k].type_id == type_id {
                return true;
            }
            k += 1;
        }
        false
    }

    /// One migration pass, run once per tick after the function-pointer
    /// refresh. For each registered type whose stored signature differs from
    /// the currently compiled one, every live instance of that type in the
    /// store is converted in place — its entity and type identity preserved,
    /// matching fields copied, the rest dropped or defaulted — and the stored
    /// shape is refreshed to the compiled one. Types whose signature is
    /// unchanged, and instances of unregistered types, are left untouched.
    /// Returns whether any instance was converted; with no shape change since
    /// the previous pass, nothing is converted and the store is untouched.
    pub fn detect_and_migrate(&mut self, catalog: &ShapeCatalog, store: &mut Vec<Instance>) -> (changed: bool)
        requires
            old(self).wf(),
            catalog.wf(),
        ensures
            final(self).wf(),
            migration_pass_post(old(self)@, final(self)@, catalog@, old(store)@, final(store)@, changed),
    {
        let ghost regs0 = self.descs@;
        let ghost store0 = store@;
        let mut changed = false;
        let nd = self.descs.len();
        let mut k: usize = 0;
        while k < nd
            invariant
                descs_wf(regs0),
                catalog.wf(),
                nd == regs0.len(),
                k <= nd,
                self.descs@.len() == nd,
                forall|m: int| k <= m < nd ==> #[trigger] self.descs@[m] == regs0[m],
                forall|m: int| 0 <= m < k ==>
                    if affected(regs0, catalog@, (#[trigger] regs0[m]).type_id) {
                        self.descs@[m].type_id == regs0[m].type_id
                            && self.descs@[m].shape.sig == descs_shape(catalog@, regs0[m].type_id).sig
                            && self.descs@[m].shape.fields@ == descs_shape(catalog@, regs0[m].type_id).fields@
                            && self.descs@[m].shape.wf()
                    } else {
                        self.descs@[m] == regs0[m]
                    },
                store@.len() == store0.len(),
                forall|i: int| 0 <= i < store0.len() ==>
                    if affected(regs0, catalog@, (#[trigger] store0[i]).type_id)
                        && descs_index(regs0, store0[i].type_id) < k {
                        store@[i].entity == store0[i].entity
                            && store@[i].type_id == store0[i].type_id
                            && store@[i].values@ == row_after(store0[i], regs0, catalog@, k as int)
                    } else {
                        store@[i] == store0[i]
                    },
                changed <==> exists|i: int|
                    0 <= i < store0.len()
                        && affected(regs0, catalog@, (#[trigger] store0[i]).type_id)
                        && descs_index(regs0, store0[i].type_id) < k,
            decreases nd - k,
        {
            let tid = self.descs[k].type_id;
            proof {
                lemma_descs_at(regs0, k as int);
            }
            if let Some(cur) = catalog.lookup(tid) {
                if cur.sig != self.descs[k].shape.sig {
                    assert(affected(regs0, catalog@, tid));
                    let ns = store.len();
                    let mut n: usize = 0;
                    while n < ns
                        invariant
                            descs_wf(regs0),
                            catalog.wf(),
                            nd == regs0.len(),
                            k < nd,
                            self.descs@.len() == nd,
                            forall|m: int| k <= m < nd ==> #[trigger] self.descs@[m] == regs0[m],
                            tid == regs0[k as int].type_id,
                            descs_index(regs0, tid) == k,
                            affected(regs0, catalog@, tid),
                            *cur == descs_shape(catalog@, tid),
                            cur.wf(),
                            regs0[k as int].shape.wf(),
                            ns == store0.len(),
                            store@.len() == store0.len(),
                            n <= ns,
                            forall|i: int| 0 <= i < store0.len() ==>
                                if affected(regs0, catalog@, (#[trigger] store0[i]).type_id)
                                    && (descs_index(regs0, store0[i].type_id) < k
                                        || (store0[i].type_id == tid && i < n)) {
                                    store@[i].entity == store0[i].entity
                                        && store@[i].type_id == store0[i].type_id
                                        && store@[i].values@ == row_after(
                                        store0[i],
                                        regs0,
                                        catalog@,
                                        k + 1,
                                    )
                                } else {
                                    store@[i] == store0[i]
                                },
                            changed <==> exists|i: int|
                                0 <= i < store0.len()
                                    && affected(regs0, catalog@, (#[trigger] store0[i]).type_id)
                                    && (descs_index(regs0, store0[i].type_id) < k
                                        || (store0[i].type_id == tid && i < n)),
                        decreases ns - n,
                    {
                        proof {
                            if !(affected(regs0, catalog@, store0[n as int].type_id)
                                && descs_index(regs0, store0[n as int].type_id) < k) {
                                assert(store@[n as int] == store0[n as int]);
                            }
                            assert(store@[n as int].type_id == store0[n as int].type_id);
                        }
                        if store[n].type_id == tid {
                            proof {
                                assert(descs_index(regs0, store0[n as int].type_id) == k);
                                assert(store@[n as int] == store0[n as int]);
                            }
                            let entity = store[n].entity;
                            let new_vals = migrate_row(&self.descs[k].shape, cur, &store[n].values);
                            store[n] = Instance { entity, type_id: tid, values: new_vals };
                            changed = true;
                            proof {
                                assert(affected(regs0, catalog@, store0[n as int].type_id)
                                    && store0[n as int].type_id == tid);
                            }
                        }
                        n += 1;
                    }
                    self.descs[k] = Descriptor { type_id: tid, shape: cur.duplicate() };
                    proof {
                        assert forall|i: int|
                            0 <= i < store0.len() && affected(regs0, catalog@, (#[trigger] store0[i]).type_id)
                            implies (descs_index(regs0, store0[i].type_id) < k + 1 <==> (
                            descs_index(regs0, store0[i].type_id) < k || store0[i].type_id == tid)) by {
                            let idx = descs_index(regs0, store0[i].type_id);
                            assert(0 <= idx < regs0.len() && regs0[idx].type_id == store0[i].type_id);
                            if store0[i].type_id == tid {
                                assert(idx == k);
                            }
                        }
                    }
                }
            }
            k += 1;
        }
        proof {
            assert forall|i: int|
                0 <= i < store0.len() && affected(regs0, catalog@, (#[trigger] store0[i]).type_id)
                implies descs_index(regs0, store0[i].type_id) < nd by {
            }
            assert(descs_wf(self.descs@)) by {
                assert forall|m: int| 0 <= m < nd implies (#[trigger] self.descs@[m]).type_id
                    == regs0[m].type_id && self.descs@[m].shape.wf() by {
                    if affected(regs0, catalog@, regs0[m].type_id) {
                    } else {
                        assert(self.descs@[m] == regs0[m]);
                    }
                }
            }
        }
        changed
    }
}

/// Migration totality: after a completed pass, every live instance of a type
/// whose shape changed conforms to the newly compiled shape — no instance
/// retains the old shape.
pub proof fn lemma_migration_totality(
    regs0: Seq<Descriptor>,
    regs1: Seq<Descriptor>,
    cat: Seq<Descriptor>,
    store0: Seq<Instance>,
    store1: Seq<Instance>,
    changed: bool,
)
    requires
        descs_wf(regs0),
        descs_wf(cat),
        migration_pass_post(regs0, regs1, cat, store0, store1, changed),
    ensures
        store1.len() == store0.len(),
        forall|i: int|
            0 <= i < store0.len() && affected(regs0, cat, (#[trigger] store0[i]).type_id)
                ==> conforms(store1[i].values@, descs_shape(cat, store0[i].type_id).fields@),
{
    assert forall|i: int|
        0 <= i < store0.len() && affected(regs0, cat, (#[trigger] store0[i]).type_id)
        implies conforms(store1[i].values@, descs_shape(cat, store0[i].type_id).fields@) by {
        let tid = store0[i].type_id;
        let m = descs_index(regs0, tid);
        assert(0 <= m < regs0.len() && regs0[m].type_id == tid);
        let c = descs_index(cat, tid);
        assert(0 <= c < cat.len() && cat[c].type_id == tid);
        assert(cat[c].shape.wf());
        assert(store1[i].values@ == row_after(store0[i], regs0, cat, regs0.len() as int));
        lemma_migrated_conforms(
            descs_shape(regs0, tid).fields@,
            descs_shape(cat, tid).fields@,
            store0[i].values@,
        );
    }
}

/// Running the pass twice with no intervening patch: the first completed pass
/// leaves every stored signature equal to the compiled one, so the second
/// pass converts nothing and changes neither the registry nor the store.
pub proof fn lemma_second_pass_no_op(
    regs0: Seq<Descriptor>,
    regs1: Seq<Descriptor>,
    cat: Seq<Descriptor>,
    store0: Seq<Instance>,
    store1: Seq<Instance>,
    changed1: bool,
    regs2: Seq<Descriptor>,
    store2: Seq<Instance>,
    changed2: bool,
)
    requires
        descs_wf(regs0),
        descs_wf(cat),
        migration_pass_post(regs0, regs1, cat, store0, store1, changed1),
        migration_pass_post(regs1, regs2, cat, store1, store2, changed2),
    ensures
        !changed2,
        store2 == store1,
        regs2 == regs1,
{
    assert forall|tid: u64| !(#[trigger] affected(regs1, cat, tid)) by {
        if descs_has(regs1, tid) && descs_has(cat, tid) {
            let m = descs_index(regs1, tid);
            assert(0 <= m < regs1.len() && regs1[m].type_id == tid);
            assert(regs0[m].type_id == tid);
            lemma_descs_at(regs0, m);
            if affected(regs0, cat, tid) {
                assert(regs1[m].shape.sig == descs_shape(cat, tid).sig);
            } else {
                assert(regs1[m] == regs0[m]);
                assert(descs_shape(regs0, tid) == regs0[m].shape);
            }
            // the slot of tid in regs1 is m: slots keep their type identities
            assert forall|j: int| 0 <= j < regs1.len() && (#[trigger] regs1[j]).type_id == tid
                implies j == m by {
                assert(regs0[j].type_id == tid);
                lemma_descs_at(regs0, j);
            }
            assert(descs_shape(regs1, tid) == regs1[m].shape);
            assert(descs_shape(regs1, tid).sig == descs_shape(cat, tid).sig);
        }
    }
    assert forall|i: int| 0 <= i < store1.len() implies #[trigger] store2[i] == store1[i] by {
        assert(!affected(regs1, cat, store1[i].type_id));
    }
    assert(store2 =~= store1);
    assert forall|m: int| 0 <= m < regs1.len() implies #[trigger] regs2[m] == regs1[m] by {
        assert(!affected(regs1, cat, regs1[m].type_id));
    }
    assert(regs2 =~= regs1);
}

} // verus!
