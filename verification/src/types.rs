//! The type dictionary: a lookup table built from the declared type
//! definitions of the input document, and the resolution of a type id
//! to a Modbus wire-type tag and register length.

use vstd::prelude::*;
use std::collections::HashMap;
use crate::text::str_eq;

verus! {

broadcast use vstd::std_specs::hash::group_hash_axioms;

/// The five kinds of declared types, plus a default for entries whose
/// discriminant tag is not recognized.
#[derive(Clone, Copy, Debug, PartialEq, Eq, Structural)]
pub enum Types {
    Undefined,
    TypeSimple,
    TypeUserdef,
    TypeArray,
    TypeString,
    TypeEnum,
}

impl Default for Types {
    fn default() -> (r: Types)
        ensures
            r == Types::Undefined,
    {
        Types::Undefined
    }
}

/// One entry of the type dictionary.
#[derive(Debug)]
pub struct TypeNode {
    pub type_: Types,
    pub type_id: u32,
    pub size: u32,
    pub name: String,
}

/// The mathematical value of a `TypeNode`.
pub struct TypeNodeV {
    pub type_: Types,
    pub type_id: u32,
    pub size: u32,
    pub name: Seq<char>,
}

impl View for TypeNode {
    type V = TypeNodeV;

    open spec fn view(&self) -> TypeNodeV {
        TypeNodeV { type_: self.type_, type_id: self.type_id, size: self.size, name: self.name@ }
    }
}

/// One declared type definition as the document parser hands it over:
/// the discriminant tag of the definition element, its `TypeId` and
/// `Size` attributes (0 where absent), and its text content.
#[derive(Debug)]
pub struct SymbolTypeEntry {
    pub tag: String,
    pub type_id: u32,
    pub size: u32,
    pub text: String,
}

/// The mathematical value of a `SymbolTypeEntry`.
pub struct SymbolTypeEntryV {
    pub tag: Seq<char>,
    pub type_id: u32,
    pub size: u32,
    pub text: Seq<char>,
}

impl View for SymbolTypeEntry {
    type V = SymbolTypeEntryV;

    open spec fn view(&self) -> SymbolTypeEntryV {
        SymbolTypeEntryV {
            tag: self.tag@,
            type_id: self.type_id,
            size: self.size,
            text: self.text@,
        }
    }
}

/// The kind a definition element's tag name denotes.
pub open spec fn classify_spec(tag: Seq<char>) -> Types {
    if tag == "TypeSimple"@ {
        Types::TypeSimple
    } else if tag == "TypeUserdef"@ {
        Types::TypeUserdef
    } else if tag == "TypeArray"@ {
        Types::TypeArray
    } else if tag == "TypeString"@ {
        Types::TypeString
    } else if tag == "TypeEnum"@ {
        Types::TypeEnum
    } else {
        Types::Undefined
    }
}

/// Classifies a definition element by its tag name.
pub fn classify_tag(tag: &str) -> (t: Types)
    ensures
        t == classify_spec(tag@),
{
    if str_eq(tag, "TypeSimple") {
        Types::TypeSimple
    } else if str_eq(tag, "TypeUserdef") {
        Types::TypeUserdef
    } else if str_eq(tag, "TypeArray") {
        Types::TypeArray
    } else if str_eq(tag, "TypeString") {
        Types::TypeString
    } else if str_eq(tag, "TypeEnum") {
        Types::TypeEnum
    } else {
        Types::Undefined
    }
}

/// The dictionary entry a declared type definition gives rise to.
/// Only a Simple definition's text content is kept as its name.
pub open spec fn node_of_entry(e: SymbolTypeEntryV) -> TypeNodeV {
    TypeNodeV {
        type_: classify_spec(e.tag),
        type_id: e.type_id,
        size: e.size,
        name: if classify_spec(e.tag) is TypeSimple {
            e.text
        } else {
            Seq::empty()
        },
    }
}

/// The mathematical value of a built dictionary.
pub open spec fn dict_view(m: Map<u32, TypeNode>) -> Map<u32, TypeNodeV> {
    Map::new(|k: u32| m.contains_key(k), |k: u32| m[k]@)
}

/// The dictionary that a sequence of type definitions builds:
/// every entry is keyed by its type id, and a later entry with the
/// same id overwrites an earlier one.
pub open spec fn types_map_spec(entries: Seq<SymbolTypeEntryV>) -> Map<u32, TypeNodeV>
    decreases entries.len(),
{
    if entries.len() == 0 {
        Map::empty()
    } else {
        types_map_spec(entries.drop_last()).insert(
            entries.last().type_id,
            node_of_entry(entries.last()),
        )
    }
}

/// Builds the type dictionary from the declared type definitions, in
/// order, with last-write-wins on duplicate type ids.
pub fn build_types_map(entries: &Vec<SymbolTypeEntry>) -> (m: HashMap<u32, TypeNode>)
    ensures
        dict_view(m@) == types_map_spec(entries@.map_values(|e: SymbolTypeEntry| e@)),
{
    let ghost evs = entries@.map_values(|e: SymbolTypeEntry| e@);
    let mut m: HashMap<u32, TypeNode> = HashMap::new();
    proof {
        assert(dict_view(m@) =~= types_map_spec(evs.take(0)));
    }
    let mut idx: usize = 0;
    while idx < entries.len()
        invariant
            idx <= entries.len(),
            evs == entries@.map_values(|e: SymbolTypeEntry| e@),
            dict_view(m@) == types_map_spec(evs.take(idx as int)),
        decreases entries.len() - idx,
    {
        let e = &entries[idx];
        let t = classify_tag(e.tag.as_str());
        let name = match t {
            Types::TypeSimple => e.text.clone(),
            _ => String::new(),
        };
        let node = TypeNode { type_: t, type_id: e.type_id, size: e.size, name };
        proof {
            assert(node@ == node_of_entry(evs[idx as int]));
        }
        let ghost before = m@;
        m.insert(e.type_id, node);
        proof {
            assert(evs.take(idx as int + 1).drop_last() =~= evs.take(idx as int));
            assert(evs.take(idx as int + 1).last() == evs[idx as int]);
            assert(dict_view(m@) =~= dict_view(before).insert(
                evs[idx as int].type_id,
                node_of_entry(evs[idx as int]),
            ));
        }
        idx = idx + 1;
    }
    proof {
        assert(evs.take(entries@.len() as int) =~= evs);
    }
    m
}

/// The wire tag and register length of a Simple type, by its primitive
/// name. An unrecognized name keeps length 0 and passes the raw name
/// through as the tag, which makes the symbol unresolvable downstream.
pub open spec fn simple_resolution(name: Seq<char>) -> (u32, Seq<char>) {
    if name == "BYTE"@ {
        (1u32, "uint8be"@)
    } else if name == "WORD"@ {
        (1u32, "uint16be"@)
    } else if name == "DWORD"@ {
        (2u32, "uint32sw"@)
    } else if name == "SINT"@ {
        (1u32, "int8be"@)
    } else if name == "USINT"@ {
        (1u32, "uint8be"@)
    } else if name == "INT"@ {
        (1u32, "int16be"@)
    } else if name == "UINT"@ {
        (1u32, "uint16be"@)
    } else if name == "DINT"@ {
        (2u32, "int32sw"@)
    } else if name == "UDINT"@ {
        (2u32, "uint32sw"@)
    } else if name == "REAL"@ {
        (2u32, "floatsw"@)
    } else if name == "TIME"@ {
        (2u32, "uint32sw"@)
    } else if name == "TOD"@ {
        (2u32, "uint32sw"@)
    } else if name == "DATE"@ {
        (2u32, "uint32sw"@)
    } else if name == "DT"@ {
        (2u32, "uint32sw"@)
    } else {
        (0u32, name)
    }
}

/// The register length and wire tag a type id resolves to. A length of
/// 0 signals an unresolvable type, which callers drop. String types
/// resolve to the little-endian string tag with the declared byte size
/// as stored; user-defined, array and enum types are not expanded and
/// keep length 0.
pub open spec fn resolve_spec(dict: Map<u32, TypeNodeV>, type_id: u32) -> (u32, Seq<char>) {
    if dict.contains_key(type_id) {
        let node = dict[type_id];
        if node.type_ is TypeSimple {
            simple_resolution(node.name)
        } else if node.type_ is TypeString {
            (node.size, "stringle"@)
        } else {
            (0u32, node.name)
        }
    } else {
        (0u32, Seq::empty())
    }
}

/// Resolves a type id through the dictionary to a register length and
/// a wire-type tag.
pub fn get_modbus_length_type(type_attr: u32, types_map: &HashMap<u32, TypeNode>) -> (r: (
    u32,
    String,
))
    ensures
        r.0 == resolve_spec(dict_view(types_map@), type_attr).0,
        r.1@ == resolve_spec(dict_view(types_map@), type_attr).1,
{
    match types_map.get(&type_attr) {
        Some(node) => {
            proof {
                assert(dict_view(types_map@).contains_key(type_attr));
                assert(dict_view(types_map@)[type_attr] == types_map@[type_attr]@);
            }
            match node.type_ {
                Types::TypeSimple => resolve_simple_name(&node.name),
                Types::TypeString => (node.size, String::from_str("stringle")),
                _ => (0, node.name.clone()),
            }
        },
        None => {
            proof {
                assert(!dict_view(types_map@).contains_key(type_attr));
            }
            (0, String::new())
        },
    }
}

/// Maps a Simple type's primitive name through the fixed table of
/// wire tags and lengths.
fn resolve_simple_name(name: &String) -> (r: (u32, String))
    ensures
        r.0 == simple_resolution(name@).0,
        r.1@ == simple_resolution(name@).1,
{
    if str_eq(name.as_str(), "BYTE") {
        (1, String::from_str("uint8be"))
    } else if str_eq(name.as_str(), "WORD") {
        (1, String::from_str("uint16be"))
    } else if str_eq(name.as_str(), "DWORD") {
        (2, String::from_str("uint32sw"))
    } else if str_eq(name.as_str(), "SINT") {
        (1, String::from_str("int8be"))
    } else if str_eq(name.as_str(), "USINT") {
        (1, String::from_str("uint8be"))
    } else if str_eq(name.as_str(), "INT") {
        (1, String::from_str("int16be"))
    } else if str_eq(name.as_str(), "UINT") {
        (1, String::from_str("uint16be"))
    } else if str_eq(name.as_str(), "DINT") {
        (2, String::from_str("int32sw"))
    } else if str_eq(name.as_str(), "UDINT") {
        (2, String::from_str("uint32sw"))
    } else if str_eq(name.as_str(), "REAL") {
        (2, String::from_str("floatsw"))
    } else if str_eq(name.as_str(), "TIME") {
        (2, String::from_str("uint32sw"))
    } else if str_eq(name.as_str(), "TOD") {
        (2, String::from_str("uint32sw"))
    } else if str_eq(name.as_str(), "DATE") {
        (2, String::from_str("uint32sw"))
    } else if str_eq(name.as_str(), "DT") {
        (2, String::from_str("uint32sw"))
    } else {
        (0, name.clone())
    }
}

} // verus!
