//! The names that users give to batteries and aircraft.
//!
//! A name belongs to a serial number and a type of equipment. The serial
//! number is kept without the white space around it and in capital
//! letters, the name without the white space around it. Giving an empty
//! name takes the name away.

use vstd::prelude::*;
use crate::csv::trim_text;
use crate::database::{Database, EquipmentName};
use crate::ranking::{lemma_ranked_descends, rank_all, ranked, ranks_are_ordered, Ranked};
use crate::table::{retain_flagged, select};
use crate::tags::is_text;
use crate::text::{
    lemma_precedes_between, lemma_precedes_one_way, precedes, text_precedes, to_uppercase,
    trimmed, uppercase_of,
};

verus! {

/// What a row of the table of names holds.
pub struct EquipmentRow {
    pub serial: Seq<char>,
    pub equipment_type: Seq<char>,
    pub display_name: Seq<char>,
}

impl View for EquipmentName {
    type V = EquipmentRow;

    open spec fn view(&self) -> EquipmentRow {
        EquipmentRow {
            serial: self.serial@,
            equipment_type: self.equipment_type@,
            display_name: self.display_name@,
        }
    }
}

impl Ranked for EquipmentName {
    /// A name ranks above the names whose serial numbers its serial number
    /// stands before in the order of texts.
    open spec fn above(&self, other: &Self) -> bool {
        precedes(self.serial@, other.serial@)
    }

    fn outranks(&self, other: &Self) -> (r: bool) {
        text_precedes(self.serial.as_str(), other.serial.as_str())
    }
}

/// What the rows of the table of names hold.
pub open spec fn equipment_rows(names: Seq<EquipmentName>) -> Seq<EquipmentRow> {
    Seq::new(names.len(), |i: int| names[i]@)
}

/// The serial number as the table keeps it.
pub open spec fn serial_key(serial: Seq<char>) -> Seq<char> {
    uppercase_of(trimmed(serial))
}

/// True when a row names the equipment with the serial number and the
/// type.
pub open spec fn names_equipment(row: EquipmentName, key: Seq<char>, equipment_type: Seq<char>) -> bool {
    row.serial@ == key && row.equipment_type@ == equipment_type
}

/// Which rows name other equipment.
pub open spec fn names_other(
    names: Seq<EquipmentName>,
    key: Seq<char>,
    equipment_type: Seq<char>,
) -> Seq<bool> {
    Seq::new(names.len(), |i: int| !names_equipment(names[i], key, equipment_type))
}

/// The table after a name is given: the row of the equipment goes, and
/// where the name is not empty a row with it comes behind the others.
pub open spec fn renamed(
    names: Seq<EquipmentName>,
    serial: Seq<char>,
    equipment_type: Seq<char>,
    display_name: Seq<char>,
) -> Seq<EquipmentRow> {
    let others = equipment_rows(
        select(names, names_other(names, serial_key(serial), equipment_type)),
    );
    if trimmed(display_name).len() == 0 {
        others
    } else {
        others.push(
            EquipmentRow {
                serial: serial_key(serial),
                equipment_type,
                display_name: trimmed(display_name),
            },
        )
    }
}

/// The rows of a type among the first `n`, in the order of the table.
pub open spec fn of_type_upto(names: Seq<EquipmentName>, equipment_type: Seq<char>, n: int) -> Seq<
    EquipmentName,
>
    decreases n,
{
    if n <= 0 {
        Seq::empty()
    } else {
        let before = of_type_upto(names, equipment_type, n - 1);
        if names[n - 1].equipment_type@ == equipment_type {
            before.push(names[n - 1])
        } else {
            before
        }
    }
}

/// The rows of a type in the order of their serial numbers.
pub open spec fn names_of_type(names: Seq<EquipmentName>, equipment_type: Seq<char>) -> Seq<
    EquipmentName,
> {
    ranked(of_type_upto(names, equipment_type, names.len() as int))
}

/// The serial number and the name of each row.
pub open spec fn name_pairs(names: Seq<EquipmentName>) -> Seq<(Seq<char>, Seq<char>)> {
    Seq::new(names.len(), |i: int| (names[i].serial@, names[i].display_name@))
}

/// What pairs of texts hold.
pub open spec fn pair_texts(pairs: Seq<(String, String)>) -> Seq<(Seq<char>, Seq<char>)> {
    Seq::new(pairs.len(), |i: int| (pairs[i].0@, pairs[i].1@))
}

/// In the names of a type no serial number stands before one that stands
/// before it in the list.
pub proof fn lemma_names_ascend(names: Seq<EquipmentName>, equipment_type: Seq<char>)
    ensures
        forall|i: int, j: int|
            #![trigger names_of_type(names, equipment_type)[j], names_of_type(names, equipment_type)[i]]
            0 <= i <= j < names_of_type(names, equipment_type).len() ==> !precedes(
                names_of_type(names, equipment_type)[j].serial@,
                names_of_type(names, equipment_type)[i].serial@,
            ),
{
    assert forall|a: EquipmentName, b: EquipmentName| #[trigger] a.above(&b) implies !b.above(
        &a,
    ) by {
        lemma_precedes_one_way(a.serial@, b.serial@, 0);
    }
    assert forall|a: EquipmentName, b: EquipmentName, c: EquipmentName|
        #![trigger a.above(&b), a.above(&c)]
        #![trigger a.above(&b), c.above(&b)]
        a.above(&b) implies a.above(&c) || c.above(&b) by {
        lemma_precedes_between(a.serial@, b.serial@, c.serial@, 0);
    }
    assert(ranks_are_ordered::<EquipmentName>());
    lemma_ranked_descends(of_type_upto(names, equipment_type, names.len() as int));
}

impl Database {
    /// Gives a name to a battery or an aircraft, in place of the name that
    /// it had. An empty name takes the name away.
    pub fn set_equipment_name(&mut self, serial: &str, equipment_type: &str, display_name: &str)
        ensures
            equipment_rows(final(self).equipment@) == renamed(
                old(self).equipment@,
                serial@,
                equipment_type@,
                display_name@,
            ),
            final(self).flights == old(self).flights,
            final(self).telemetry == old(self).telemetry,
            final(self).tags == old(self).tags,
            final(self).notes == old(self).notes,
            final(self).messages == old(self).messages,
            final(self).settings == old(self).settings,
    {
        let key = to_uppercase(trim_text(serial).as_str());
        let name = trim_text(display_name);
        let mut keep: Vec<bool> = Vec::new();
        let mut i: usize = 0;
        while i < self.equipment.len()
            invariant
                i <= self.equipment.len(),
                *self == *old(self),
                key@ == serial_key(serial@),
                keep@ =~= Seq::new(
                    i as nat,
                    |k: int| !names_equipment(self.equipment@[k], key@, equipment_type@),
                ),
            decreases self.equipment.len() - i,
        {
            let same = is_text(self.equipment[i].serial.as_str(), key.as_str()) && is_text(
                self.equipment[i].equipment_type.as_str(),
                equipment_type,
            );
            keep.push(!same);
            i += 1;
        }
        assert(keep@ =~= names_other(self.equipment@, key@, equipment_type@));
        retain_flagged(&mut self.equipment, &keep);
        if !name.as_str().is_empty() {
            let row = EquipmentName {
                serial: key,
                equipment_type: equipment_type.to_string(),
                display_name: name,
            };
            proof {
                assert(equipment_rows(self.equipment@.push(row)) =~= equipment_rows(
                    self.equipment@,
                ).push(row@));
            }
            self.equipment.push(row);
        }
    }

    /// The serial numbers and the names of the equipment of a type, in the
    /// order of the serial numbers.
    pub fn get_equipment_names(&self, equipment_type: &str) -> (out: Vec<(String, String)>)
        ensures
            pair_texts(out@) == name_pairs(names_of_type(self.equipment@, equipment_type@)),
    {
        let mut rows: Vec<EquipmentName> = Vec::new();
        let mut i: usize = 0;
        while i < self.equipment.len()
            invariant
                i <= self.equipment.len(),
                rows@ == of_type_upto(self.equipment@, equipment_type@, i as int),
            decreases self.equipment.len() - i,
        {
            if is_text(self.equipment[i].equipment_type.as_str(), equipment_type) {
                rows.push(
                    EquipmentName {
                        serial: self.equipment[i].serial.clone(),
                        equipment_type: self.equipment[i].equipment_type.clone(),
                        display_name: self.equipment[i].display_name.clone(),
                    },
                );
            }
            i += 1;
        }
        let order = rank_all(rows);
        let ghost ordered = order@;
        let n = order.len();
        let mut out: Vec<(String, String)> = Vec::new();
        let mut k: usize = 0;
        for row in it: order
            invariant
                it.seq() == ordered,
                k == it.index(),
                n == ordered.len(),
                pair_texts(out@) =~= name_pairs(ordered).take(k as int),
        {
            let pair = (row.serial, row.display_name);
            proof {
                assert(pair_texts(out@.push(pair)) =~= pair_texts(out@).push((pair.0@, pair.1@)));
            }
            out.push(pair);
            k += 1;
        }
        assert(pair_texts(out@) =~= name_pairs(ordered));
        out
    }

    /// The names of the batteries and the names of the aircraft.
    pub fn get_all_equipment_names(&self) -> (out: (Vec<(String, String)>, Vec<(String, String)>))
        ensures
            pair_texts(out.0@) == name_pairs(names_of_type(self.equipment@, "battery"@)),
            pair_texts(out.1@) == name_pairs(names_of_type(self.equipment@, "aircraft"@)),
    {
        (self.get_equipment_names("battery"), self.get_equipment_names("aircraft"))
    }
}

} // verus!
