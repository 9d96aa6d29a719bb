use vstd::prelude::*;
use crate::error::HostError;

verus! {

/// Layout of one field of a guest plain-data type.
#[derive(Debug, Clone, PartialEq, Eq)]
pub struct ComponentFieldInfo {
    pub offset: u32,
    pub size: u32,
    pub name: String,
    pub ty: String,
}

/// Layout of a guest plain-data type: its byte size and its fields in
/// declaration order.
#[derive(Debug, Clone, PartialEq, Eq)]
pub struct ComponentInfo {
    pub size: u32,
    pub fields: Vec<ComponentFieldInfo>,
}

/// What a field record says, as mathematical values.
pub ghost struct FieldLayout {
    pub offset: int,
    pub size: int,
    pub name: Seq<char>,
    pub ty: Seq<char>,
}

/// What a descriptor says, as mathematical values.
pub ghost struct Layout {
    pub size: int,
    pub fields: Seq<FieldLayout>,
}

impl FieldLayout {
    /// First byte past the field.
    pub open spec fn end(self) -> int {
        self.offset + self.size
    }

    /// Whether the byte at `at`, counted from the start of the type, belongs
    /// to the field.
    pub open spec fn covers(self, at: int) -> bool {
        self.offset <= at < self.end()
    }

    /// Whether some byte belongs to both fields.
    pub open spec fn overlaps(self, other: FieldLayout) -> bool {
        &&& self.offset < other.end()
        &&& other.offset < self.end()
        &&& self.offset < self.end()
        &&& other.offset < other.end()
    }
}

/// Largest end of any field, 0 where there is none.
pub open spec fn extent(fields: Seq<FieldLayout>) -> int
    decreases fields.len(),
{
    if fields.len() == 0 {
        0
    } else {
        let rest = extent(fields.drop_last());
        if fields.last().end() > rest {
            fields.last().end()
        } else {
            rest
        }
    }
}

impl Layout {
    /// Every field lies inside the type.
    pub open spec fn fields_inside(self) -> bool {
        forall|i: int| 0 <= i < self.fields.len() ==> (#[trigger] self.fields[i]).end() <= self.size
    }

    /// No byte belongs to two fields.
    pub open spec fn fields_disjoint(self) -> bool {
        forall|i: int, j: int|
            0 <= i < j < self.fields.len() ==> !(#[trigger] self.fields[i]).overlaps(
                #[trigger] self.fields[j],
            )
    }

    /// A descriptor is consistent when its fields lie inside the type and
    /// share no byte.
    pub open spec fn well_formed(self) -> bool {
        self.fields_inside() && self.fields_disjoint()
    }

    /// Whether some field has this name.
    pub open spec fn has_field(self, name: Seq<char>) -> bool {
        exists|i: int| 0 <= i < self.fields.len() && (#[trigger] self.fields[i]).name == name
    }

    /// Whether `index` is the first field of this name.
    pub open spec fn is_first_named(self, index: int, name: Seq<char>) -> bool {
        &&& 0 <= index < self.fields.len()
        &&& self.fields[index].name == name
        &&& forall|j: int| 0 <= j < index ==> (#[trigger] self.fields[j]).name != name
    }
}

impl View for ComponentFieldInfo {
    type V = FieldLayout;

    open spec fn view(&self) -> FieldLayout {
        FieldLayout {
            offset: self.offset as int,
            size: self.size as int,
            name: self.name@,
            ty: self.ty@,
        }
    }
}

impl View for ComponentInfo {
    type V = Layout;

    open spec fn view(&self) -> Layout {
        Layout {
            size: self.size as int,
            fields: Seq::new(self.fields@.len(), |i: int| self.fields@[i]@),
        }
    }
}

impl ComponentFieldInfo {
    /// Whether some byte belongs to both fields.
    pub fn overlaps(&self, other: &ComponentFieldInfo) -> (shared: bool)
        ensures
            shared == self@.overlaps(other@),
    {
        let self_end: u64 = self.offset as u64 + self.size as u64;
        let other_end: u64 = other.offset as u64 + other.size as u64;
        (self.offset as u64) < other_end && (other.offset as u64) < self_end && self.size > 0
            && other.size > 0
    }
}

impl ComponentInfo {
    /// Whether the fields lie inside the type and share no byte.
    pub fn is_consistent(&self) -> (ok: bool)
        ensures
            ok == self@.well_formed(),
    {
        let count: usize = self.fields.len();
        let mut i: usize = 0;
        while i < count
            invariant
                i <= count,
                count == self.fields@.len(),
                forall|k: int| 0 <= k < i ==> (#[trigger] self@.fields[k]).end() <= self@.size,
                forall|k: int, l: int|
                    0 <= k < l < count && k < i ==> !(#[trigger] self@.fields[k]).overlaps(
                        #[trigger] self@.fields[l],
                    ),
            decreases count - i,
        {
            let field: &ComponentFieldInfo = &self.fields[i];
            assert(field@ == self@.fields[i as int]);
            if field.offset as u64 + field.size as u64 > self.size as u64 {
                return false;
            }
            let mut j: usize = i + 1;
            while j < count
                invariant
                    i < j <= count,
                    count == self.fields@.len(),
                    field@ == self@.fields[i as int],
                    forall|l: int|
                        i < l < j ==> !(#[trigger] self@.fields[i as int]).overlaps(
                            #[trigger] self@.fields[l],
                        ),
                decreases count - j,
            {
                let other: &ComponentFieldInfo = &self.fields[j];
                assert(other@ == self@.fields[j as int]);
                if field.overlaps(other) {
                    return false;
                }
                j += 1;
            }
            i += 1;
        }
        true
    }

    /// Looks a field up by name. Where several fields share the name, the
    /// first in declaration order is the one found.
    pub fn field(&self, name: &str) -> (found: Result<&ComponentFieldInfo, HostError>)
        ensures
            self@.has_field(name@) ==> found is Ok,
            found matches Ok(field) ==> exists|i: int|
                #[trigger] self@.is_first_named(i, name@) && *field == self.fields@[i],
            found matches Err(e) ==> !self@.has_field(name@) && (e matches HostError::UnknownField {
                name: missing,
            } && missing@ == name@),
    {
        let wanted: String = name.to_owned();
        let count: usize = self.fields.len();
        let mut i: usize = 0;
        while i < count
            invariant
                i <= count,
                count == self.fields@.len(),
                wanted@ == name@,
                forall|j: int| 0 <= j < i ==> (#[trigger] self@.fields[j]).name != name@,
            decreases count - i,
        {
            let field: &ComponentFieldInfo = &self.fields[i];
            assert(field@ == self@.fields[i as int]);
            if field.name == wanted {
                assert(self@.is_first_named(i as int, name@));
                return Ok(field);
            }
            i += 1;
        }
        Err(HostError::UnknownField { name: wanted })
    }
}

/// The extent of a set of fields is the end of one of them and no field ends
/// past it.
pub proof fn lemma_extent_bounds(fields: Seq<FieldLayout>)
    requires
        forall|i: int| 0 <= i < fields.len() ==> 0 <= (#[trigger] fields[i]).end(),
    ensures
        forall|i: int| 0 <= i < fields.len() ==> (#[trigger] fields[i]).end() <= extent(fields),
        fields.len() > 0 ==> exists|i: int|
            0 <= i < fields.len() && (#[trigger] fields[i]).end() == extent(fields),
        fields.len() == 0 ==> extent(fields) == 0,
    decreases fields.len(),
{
    if fields.len() > 0 {
        let rest = fields.drop_last();
        lemma_extent_bounds(rest);
        assert forall|i: int| 0 <= i < fields.len() implies (#[trigger] fields[i]).end() <= extent(
            fields,
        ) by {
            if i < rest.len() {
                assert(rest[i] == fields[i]);
            }
        }
        if fields.last().end() > extent(rest) {
            assert(fields[fields.len() - 1].end() == extent(fields));
        } else {
            if rest.len() > 0 {
                let k = choose|k: int| 0 <= k < rest.len() && (#[trigger] rest[k]).end() == extent(rest);
                assert(fields[k] == rest[k]);
            } else {
                assert(fields[fields.len() - 1].end() == extent(fields));
            }
        }
    }
}

/// In a consistent descriptor the largest end of any field is within the
/// total size, and no two fields share a byte.
pub proof fn lemma_descriptor_consistency(layout: Layout)
    requires
        layout.well_formed(),
        layout.size >= 0,
        forall|i: int| 0 <= i < layout.fields.len() ==> 0 <= (#[trigger] layout.fields[i]).end(),
    ensures
        extent(layout.fields) <= layout.size,
        forall|i: int, j: int, byte: int|
            0 <= i < layout.fields.len() && 0 <= j < layout.fields.len() && i != j
                && #[trigger] layout.fields[i].covers(byte) ==> !#[trigger] layout.fields[j].covers(
                byte,
            ),
{
    lemma_extent_bounds(layout.fields);
    assert forall|i: int, j: int, byte: int|
        0 <= i < layout.fields.len() && 0 <= j < layout.fields.len() && i != j
            && #[trigger] layout.fields[i].covers(byte) implies !#[trigger] layout.fields[j].covers(
        byte,
    ) by {
        if i < j {
            assert(!layout.fields[i].overlaps(layout.fields[j]));
        } else {
            assert(!layout.fields[j].overlaps(layout.fields[i]));
        }
    }
}

} // verus!
