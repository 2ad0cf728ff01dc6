//! The HDL netlist model: parsed chip definitions with their pin lists and
//! component wiring maps.

pub mod parser;

pub use parser::{parse, tokenize, Error, Token, TokenTrait, TokenType};

use vstd::prelude::*;

verus! {

/// One component instantiation inside a chip: the wiring map from the
/// component's pin names to the chip's nets, and the component's chip name.
#[derive(Debug, Clone, PartialEq, Eq)]
pub struct ComponentMap {
    pub var_map: Vec<(String, String)>,
    pub chip_name: String,
}

/// The mathematical reading of a component instantiation.
pub ghost struct ComponentMapV {
    pub var_map: Seq<(Seq<char>, Seq<char>)>,
    pub chip_name: Seq<char>,
}

/// The views of a list of names.
pub open spec fn strs_view(v: Seq<String>) -> Seq<Seq<char>> {
    v.map_values(|s: String| s@)
}

/// The views of a list of name pairs.
pub open spec fn pairs_view(v: Seq<(String, String)>) -> Seq<(Seq<char>, Seq<char>)> {
    v.map_values(|p: (String, String)| (p.0@, p.1@))
}

/// The views of a component list.
pub open spec fn comps_view(v: Seq<ComponentMap>) -> Seq<ComponentMapV> {
    v.map_values(|c: ComponentMap| c@)
}

impl View for ComponentMap {
    type V = ComponentMapV;

    open spec fn view(&self) -> ComponentMapV {
        ComponentMapV { var_map: pairs_view(self.var_map@), chip_name: self.chip_name@ }
    }
}

impl ComponentMap {
    /// A component from borrowed name pairs.
    pub fn new(var_map: Vec<(&str, &str)>, chip_name: &str) -> (r: Self)
        ensures
            r@.var_map.len() == var_map@.len(),
            forall|j: int|
                0 <= j < var_map@.len() ==> #[trigger] r@.var_map[j] == (
                    var_map@[j].0@,
                    var_map@[j].1@,
                ),
            r@.chip_name == chip_name@,
    {
        let mut owned: Vec<(String, String)> = Vec::new();
        let mut i: usize = 0;
        while i < var_map.len()
            invariant
                i <= var_map@.len(),
                owned@.len() == i,
                forall|j: int|
                    0 <= j < i ==> (#[trigger] owned@[j].0@, owned@[j].1@) == (
                        var_map@[j].0@,
                        var_map@[j].1@,
                    ),
            decreases var_map@.len() - i,
        {
            let (a, b) = var_map[i];
            owned.push((String::from_str(a), String::from_str(b)));
            i = i + 1;
        }
        let r = ComponentMap { var_map: owned, chip_name: String::from_str(chip_name) };
        proof {
            assert(forall|j: int|
                0 <= j < var_map@.len() ==> #[trigger] r@.var_map[j] == (
                    var_map@[j].0@,
                    var_map@[j].1@,
                ));
        }
        r
    }

    /// A component from owned name pairs.
    pub fn new_string(var_map: Vec<(String, String)>, chip_name: String) -> (r: Self)
        ensures
            r.var_map@ == var_map@,
            r.chip_name@ == chip_name@,
    {
        ComponentMap { var_map, chip_name }
    }
}

/// A parsed chip: its name, the ordered input and output pins, and the
/// ordered component instantiations.
#[derive(Debug, Clone, PartialEq, Eq)]
pub struct ChipDef {
    pub name: String,
    pub inputs: Vec<String>,
    pub outputs: Vec<String>,
    pub parts: Vec<ComponentMap>,
}

/// The mathematical reading of a chip definition.
pub ghost struct ChipDefV {
    pub name: Seq<char>,
    pub inputs: Seq<Seq<char>>,
    pub outputs: Seq<Seq<char>>,
    pub parts: Seq<ComponentMapV>,
}

impl View for ChipDef {
    type V = ChipDefV;

    open spec fn view(&self) -> ChipDefV {
        ChipDefV {
            name: self.name@,
            inputs: strs_view(self.inputs@),
            outputs: strs_view(self.outputs@),
            parts: comps_view(self.parts@),
        }
    }
}

impl ChipDef {
    /// A chip from borrowed pin names.
    pub fn new(name: &str, inputs: Vec<&str>, outputs: Vec<&str>, parts: Vec<ComponentMap>) -> (r:
        Self)
        ensures
            r@.name == name@,
            r@.inputs.len() == inputs@.len(),
            forall|j: int| 0 <= j < inputs@.len() ==> #[trigger] r@.inputs[j] == inputs@[j]@,
            r@.outputs.len() == outputs@.len(),
            forall|j: int| 0 <= j < outputs@.len() ==> #[trigger] r@.outputs[j] == outputs@[j]@,
            r@.parts == comps_view(parts@),
    {
        let owned_inputs = own_strs(inputs);
        let owned_outputs = own_strs(outputs);
        ChipDef {
            name: String::from_str(name),
            inputs: owned_inputs,
            outputs: owned_outputs,
            parts,
        }
    }

    /// A chip from owned pin names.
    pub fn new_string(
        name: String,
        inputs: Vec<String>,
        outputs: Vec<String>,
        parts: Vec<ComponentMap>,
    ) -> (r: Self)
        ensures
            r.name@ == name@,
            r.inputs@ == inputs@,
            r.outputs@ == outputs@,
            r.parts@ == parts@,
    {
        ChipDef { name, inputs, outputs, parts }
    }
}

/// Owned copies of a list of borrowed strings.
fn own_strs(v: Vec<&str>) -> (r: Vec<String>)
    ensures
        r@.len() == v@.len(),
        forall|j: int| 0 <= j < v@.len() ==> (#[trigger] r@[j])@ == v@[j]@,
{
    let mut owned: Vec<String> = Vec::new();
    let mut i: usize = 0;
    while i < v.len()
        invariant
            i <= v@.len(),
            owned@.len() == i,
            forall|j: int| 0 <= j < i ==> (#[trigger] owned@[j])@ == v@[j]@,
        decreases v@.len() - i,
    {
        owned.push(String::from_str(v[i]));
        i = i + 1;
    }
    owned
}

} // verus!
