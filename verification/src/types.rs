//! The type registry: the table of the type names that programs may use.

use vstd::prelude::*;
use crate::error::CompileError;
use crate::wrapper::Type;

verus! {

/// What the registry knows of one type name.
#[derive(Debug)]
pub struct TypeDescriptor {
    /// The small integer that identifies the type.
    pub index: i32,
    pub name: String,
    /// The type tag that values of this type carry.
    pub backend_type: Type,
}

/// The view of a descriptor: its name as a sequence of characters.
pub struct DescriptorModel {
    pub index: i32,
    pub name: Seq<char>,
    pub backend_type: Type,
}

impl View for TypeDescriptor {
    type V = DescriptorModel;

    open spec fn view(&self) -> DescriptorModel {
        DescriptorModel { index: self.index, name: self.name@, backend_type: self.backend_type }
    }
}

/// The table of known type names, in order of registration.
#[derive(Debug)]
pub struct TypeRegistry {
    pub entries: Vec<TypeDescriptor>,
}

impl View for TypeRegistry {
    type V = Seq<DescriptorModel>;

    open spec fn view(&self) -> Seq<DescriptorModel> {
        self.entries@.map_values(|d: TypeDescriptor| d@)
    }
}

/// The first descriptor at or after position `from` that has the name.
pub open spec fn resolve_from(table: Seq<DescriptorModel>, name: Seq<char>, from: int) -> Option<
    DescriptorModel,
>
    decreases table.len() - from,
{
    if 0 <= from < table.len() {
        if table[from].name == name {
            Some(table[from])
        } else {
            resolve_from(table, name, from + 1)
        }
    } else {
        None
    }
}

/// The descriptor registered under `name`, if there is one.
pub open spec fn spec_resolve(table: Seq<DescriptorModel>, name: Seq<char>) -> Option<
    DescriptorModel,
> {
    resolve_from(table, name, 0)
}

/// No name has two descriptors.
pub open spec fn distinct_names(table: Seq<DescriptorModel>) -> bool {
    forall|i: int, j: int|
        0 <= i < j < table.len() ==> (#[trigger] table[i]).name != (#[trigger] table[j]).name
}

/// The table before any registration by a user: `void`, `int` and `bool`,
/// with indices 0, 1 and 2.
pub open spec fn builtin_types() -> Seq<DescriptorModel> {
    seq![
        DescriptorModel { index: 0, name: "void"@, backend_type: Type::void() },
        DescriptorModel { index: 1, name: "int"@, backend_type: Type::integer() },
        DescriptorModel { index: 2, name: "bool"@, backend_type: Type::bool() },
    ]
}

/// A search from `from` finds nothing exactly when no descriptor at or after
/// `from` has the name, and what it finds has the name.
pub proof fn lemma_resolve_from(table: Seq<DescriptorModel>, name: Seq<char>, from: int)
    requires
        0 <= from,
    ensures
        resolve_from(table, name, from) is None <==> forall|i: int|
            from <= i < table.len() ==> (#[trigger] table[i]).name != name,
        resolve_from(table, name, from) matches Some(d) ==> d.name == name && exists|i: int|
            from <= i < table.len() && table[i] == d,
    decreases table.len() - from,
{
    if from < table.len() {
        if table[from].name != name {
            lemma_resolve_from(table, name, from + 1);
            if resolve_from(table, name, from + 1) is None {
                assert forall|i: int| from <= i < table.len() implies (#[trigger] table[i]).name
                    != name by {
                    if i > from {
                    }
                }
            }
        }
    }
}

impl TypeRegistry {
    /// No name has two descriptors.
    pub open spec fn wf(&self) -> bool {
        distinct_names(self@)
    }

    /// The registry with the three built-in types.
    pub fn new() -> (r: TypeRegistry)
        ensures
            r@ == builtin_types(),
            r.wf(),
    {
        let mut entries: Vec<TypeDescriptor> = Vec::new();
        entries.push(
            TypeDescriptor { index: 0, name: "void".to_owned(), backend_type: Type::void() },
        );
        entries.push(
            TypeDescriptor { index: 1, name: "int".to_owned(), backend_type: Type::integer() },
        );
        entries.push(
            TypeDescriptor { index: 2, name: "bool".to_owned(), backend_type: Type::bool() },
        );
        let r = TypeRegistry { entries };
        proof {
            lemma_builtin_types_distinct();
            assert(r@ =~= builtin_types());
        }
        r
    }

    /// Looks `name` up. Fails with `UnknownType` exactly when no descriptor
    /// has the name.
    pub fn resolve(&self, name: &String) -> (r: Result<&TypeDescriptor, CompileError>)
        ensures
            match r {
                Ok(d) => spec_resolve(self@, name@) == Some(d@),
                Err(e) => e == CompileError::UnknownType && spec_resolve(self@, name@) is None,
            },
    {
        let mut i: usize = 0;
        while i < self.entries.len()
            invariant
                i <= self.entries.len(),
                spec_resolve(self@, name@) == resolve_from(self@, name@, i as int),
            decreases self.entries.len() - i,
        {
            if self.entries[i].name == *name {
                return Ok(&self.entries[i]);
            }
            i += 1;
        }
        Err(CompileError::UnknownType)
    }

    /// Adds a descriptor unless the name has one already. Returns whether
    /// it was added.
    pub fn register(&mut self, name: String, backend_type: Type, index: i32) -> (added: bool)
        requires
            old(self).wf(),
        ensures
            final(self).wf(),
            added == (spec_resolve(old(self)@, name@) is None),
            added ==> final(self)@ == old(self)@.push(
                DescriptorModel { index, name: name@, backend_type },
            ),
            !added ==> final(self)@ == old(self)@,
    {
        let known = self.resolve(&name).is_ok();
        if known {
            false
        } else {
            proof {
                lemma_resolve_from(self@, name@, 0);
            }
            self.entries.push(TypeDescriptor { index, name, backend_type });
            assert(self@ =~= old(self)@.push(DescriptorModel { index, name: name@, backend_type }));
            true
        }
    }
}

/// The three built-in names differ from one another.
pub proof fn lemma_builtin_types_distinct()
    ensures
        distinct_names(builtin_types()),
        "void"@ != "int"@,
        "void"@ != "bool"@,
        "int"@ != "bool"@,
{
    reveal_strlit("void");
    reveal_strlit("int");
    reveal_strlit("bool");
    assert("void"@.len() == 4);
    assert("int"@.len() == 3);
    assert("bool"@.len() == 4);
    assert("void"@[0] == 'v');
    assert("bool"@[0] == 'b');
}

} // verus!
