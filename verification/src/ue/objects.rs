//! Objects, their class hierarchy headers, and the global object array.
use vstd::prelude::*;
use crate::text::text_equals;
use crate::ue::names::{FName, FNameEntry, display_name};

verus! {

/// The dotted path of an object's outers, outermost first, each followed by
/// `.`; `outer_names` lists them from the innermost outwards.
pub open spec fn outer_path(outer_names: Seq<String>) -> Seq<char>
    decreases outer_names.len(),
{
    if outer_names.len() == 0 {
        Seq::empty()
    } else {
        outer_names.last()@ + seq!['.'] + outer_path(outer_names.drop_last())
    }
}

/// The full name of an object: its class's name, a space, the path of its
/// outers, and its own name.
pub open spec fn full_name(class_name: Seq<char>, outer_names: Seq<String>, own_name: Seq<char>) -> Seq<
    char,
> {
    class_name + seq![' '] + outer_path(outer_names) + own_name
}

/// Each outer's display name followed by `.`, outermost first.
pub open spec fn dotted_outers(outer_names: Seq<String>) -> Seq<Seq<char>> {
    outer_names.reverse().map_values(|n: String| n@ + seq!['.'])
}

/// The outer path of a full name lists every outer, outermost first, each
/// followed by `.`, whatever the number of outers.
pub proof fn law_outer_path_lists_every_outer(outer_names: Seq<String>)
    ensures
        outer_path(outer_names) == dotted_outers(outer_names).flatten(),
    decreases outer_names.len(),
{
    if outer_names.len() > 0 {
        law_outer_path_lists_every_outer(outer_names.drop_last());
        let m = dotted_outers(outer_names);
        assert(m.first() == outer_names.last()@ + seq!['.']);
        assert(m.drop_first() =~= dotted_outers(outer_names.drop_last()));
    } else {
        assert(dotted_outers(outer_names) =~= Seq::<Seq<char>>::empty());
    }
}

/// A full name is the class name, a space, every outer's name followed by `.`
/// from the outermost in, and the object's own name; with a single outer `o`
/// it is the class name, a space, `o`, `.`, and the own name.
pub proof fn law_full_name_shape(class_name: Seq<char>, outer_names: Seq<String>, own_name: Seq<char>, o: String)
    ensures
        full_name(class_name, outer_names, own_name) == class_name + seq![' '] + dotted_outers(
            outer_names,
        ).flatten() + own_name,
        full_name(class_name, seq![o], own_name) == class_name + seq![' '] + o@ + seq!['.']
            + own_name,
{
    law_outer_path_lists_every_outer(outer_names);
    let one = seq![o];
    assert(one.drop_last() =~= Seq::<String>::empty());
    assert(outer_path(one.drop_last()) == Seq::<char>::empty());
    assert(one.last() == o);
    assert(outer_path(one) =~= o@ + seq!['.']);
}

/// The header that every engine object starts with; addresses are held as integers.
#[derive(Clone, Copy)]
pub struct UObject {
    pub vf_table: u64,
    pub object_flags: u32,
    pub internal_index: u32,
    pub class: u64,
    pub name: FName,
    pub outer: u64,
}

/// The virtual-table slot of `ProcessEvent`.
pub const PROCESS_EVENT_SLOT: u64 = 0x4c;

/// The virtual-table slot of the viewport's `PostRender`.
pub const POST_RENDER_SLOT: u64 = 0x6e;

impl UObject {
    /// The address of virtual-table entry `slot`: the table's address plus
    /// eight bytes per slot.
    pub fn vtable_entry_address(&self, slot: u64) -> (a: u64)
        requires
            self.vf_table + 8 * slot <= u64::MAX,
        ensures
            a == self.vf_table + 8 * slot,
    {
        self.vf_table + 8 * slot
    }

    /// The object's display name, given the pool entry of its name.
    pub fn get_name(&self, entry: &FNameEntry) -> (s: String)
        ensures
            s@ == display_name(entry.text(), self.name.number),
    {
        self.name.get_name(entry)
    }

    /// The object's full name, given the pool entry of its own name, its class's
    /// display name, and the display names of its outers from the innermost outwards.
    pub fn get_full_name(&self, entry: &FNameEntry, class_name: &str, outer_names: &Vec<String>) -> (s:
        String)
        ensures
            s@ == full_name(
                class_name@,
                outer_names@,
                display_name(entry.text(), self.name.number),
            ),
            s@ == class_name@ + seq![' '] + dotted_outers(outer_names@).flatten() + display_name(
                entry.text(),
                self.name.number,
            ),
    {
        let mut name: String = String::new();
        let mut i: usize = 0;
        while i < outer_names.len()
            invariant
                i <= outer_names@.len(),
                name@ == outer_path(outer_names@.take(i as int)),
            decreases outer_names@.len() - i,
        {
            let ghost prev = name@;
            proof {
                reveal_strlit(".");
            }
            let outer_name = outer_names[i].clone();
            name = outer_name.concat(".").concat(name.as_str());
            let ghost t = outer_names@.take(i as int + 1);
            assert(t.drop_last() =~= outer_names@.take(i as int));
            assert(t.last() == outer_names@[i as int]);
            assert(name@ == outer_names@[i as int]@ + seq!['.'] + prev);
            i = i + 1;
        }
        assert(outer_names@.take(i as int) =~= outer_names@);
        proof {
            law_outer_path_lists_every_outer(outer_names@);
        }
        let obj_name = self.get_name(entry);
        proof {
            reveal_strlit(" ");
        }
        name = class_name.to_owned().concat(" ").concat(name.as_str());
        name = name.concat(obj_name.as_str());
        name
    }
}

/// A field: an object header.
#[derive(Clone, Copy)]
pub struct UField {
    pub object_: UObject,
}

/// A struct type: a field header and the address of its parent struct.
#[derive(Clone, Copy)]
pub struct UStruct {
    pub field_: UField,
    pub super_struct: u64,
}

/// A class: a struct header.
#[derive(Clone, Copy)]
pub struct UClass {
    pub struct_: UStruct,
}

/// An object slot as read from the object array: the object's address (0 for
/// an empty slot) and its full name.
pub open spec fn slot_matches(slot: (u64, String), name: Seq<char>) -> bool {
    slot.0 != 0 && slot.1@ == name
}

/// The global object array: chunks of 65536 items of 24 bytes, reached through
/// a table of chunk addresses.
pub struct TUObjectArray {
    pub objects: u64,
    pub pre_allocated_objects: u64,
    pub max_elements: u32,
    pub num_elements: u32,
    pub max_chunks: u32,
    pub num_chunks: u32,
}

impl TUObjectArray {
    /// The address of the table of chunk addresses.
    pub open spec fn chunk_table(&self) -> u64 {
        self.objects
    }

    /// The number of elements.
    pub open spec fn element_count(&self) -> u32 {
        self.num_elements
    }

    /// The number of chunks.
    pub open spec fn chunk_count(&self) -> u32 {
        self.num_chunks
    }

    /// An object array with the given header fields.
    pub fn from_parts(
        objects: u64,
        pre_allocated_objects: u64,
        max_elements: u32,
        num_elements: u32,
        max_chunks: u32,
        num_chunks: u32,
    ) -> (a: Self)
        ensures
            a == (TUObjectArray {
                objects,
                pre_allocated_objects,
                max_elements,
                num_elements,
                max_chunks,
                num_chunks,
            }),
    {
        TUObjectArray {
            objects,
            pre_allocated_objects,
            max_elements,
            num_elements,
            max_chunks,
            num_chunks,
        }
    }

    /// The address of the chunk-table entry that holds object `index`, or `None`
    /// when `index` is past the last element or its chunk past the last chunk.
    pub fn chunk_pointer_address(&self, index: u32) -> (r: Option<u64>)
        requires
            index < self.element_count() && index / 65536 < self.chunk_count() ==> self.chunk_table()
                + 8 * (index / 65536) <= u64::MAX,
        ensures
            (index >= self.element_count() || index / 65536 >= self.chunk_count()) ==> r is None,
            (index < self.element_count() && index / 65536 < self.chunk_count()) ==> r == Some(
                (self.chunk_table() + 8 * (index / 65536)) as u64,
            ),
    {
        if index >= self.num_elements {
            return None;
        }
        let chunk_index = index / 65536;
        if chunk_index >= self.num_chunks {
            return None;
        }
        Some(self.objects + 8 * chunk_index as u64)
    }

    /// The address of the item that holds object `index` within the chunk at
    /// `chunk`, or `None` when the chunk address is null.
    pub fn object_pointer_address(chunk: u64, index: u32) -> (r: Option<u64>)
        requires
            chunk != 0 ==> chunk + 24 * (index % 65536) <= u64::MAX,
        ensures
            chunk == 0 ==> r is None,
            chunk != 0 ==> r == Some((chunk + 24 * (index % 65536)) as u64),
    {
        if chunk == 0 {
            return None;
        }
        let within_chunk_index = (index % 65536) * 24;
        Some(chunk + within_chunk_index as u64)
    }

    /// Whether a slot holds the object sought: its address is not null and its
    /// full name is `name`. Searching the slots in order and stopping at the
    /// first slot for which this holds gives what `find_object` gives.
    pub fn is_object_named(address: u64, full_name: &str, name: &str) -> (r: bool)
        ensures
            r == (address != 0 && full_name@ == name@),
    {
        address != 0 && text_equals(full_name, name)
    }

    /// The address of the first non-empty slot whose object has the full name
    /// `name`, or 0 when none has; `slots` holds, for each element in order, the
    /// object's address and full name.
    pub fn find_object(&self, name: &str, slots: &Vec<(u64, String)>) -> (r: u64)
        requires
            slots@.len() == self.element_count(),
        ensures
            r == 0 <==> forall|i: int| 0 <= i < slots@.len() ==> !slot_matches(#[trigger] slots@[i], name@),
            r != 0 ==> exists|i: int|
                0 <= i < slots@.len() && slot_matches(#[trigger] slots@[i], name@) && slots@[i].0 == r
                    && forall|j: int| 0 <= j < i ==> !slot_matches(#[trigger] slots@[j], name@),
    {
        let mut i: u32 = 0;
        while i < self.num_elements
            invariant
                slots@.len() == self.num_elements,
                i <= self.num_elements,
                forall|j: int| 0 <= j < i ==> !slot_matches(#[trigger] slots@[j], name@),
            decreases self.num_elements - i,
        {
            let slot = &slots[i as usize];
            if slot.0 != 0 && text_equals(slot.1.as_str(), name) {
                assert(slot_matches(slots@[i as int], name@));
                return slot.0;
            }
            i = i + 1;
        }
        0
    }

    pub fn len(&self) -> (n: u32)
        ensures
            n == self.element_count(),
    {
        self.num_elements
    }
}

} // verus!
