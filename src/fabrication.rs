//! Logic of the fabrication-file commands: picking the design tool's output
//! files and joining the bill of materials with the parts list.
use vstd::prelude::*;
use crate::parts::{trim_of, trimmed, Part};

verus! {

/// Whether `suffix` ends `s`.
pub open spec fn ends_with_spec(s: Seq<char>, suffix: Seq<char>) -> bool {
    suffix.len() <= s.len() && s.subrange(s.len() - suffix.len(), s.len() as int) == suffix
}

/// Relies on `str::ends_with` with a `&str` pattern: whether the text ends with it.
#[verifier::external_body]
fn text_ends_with(s: &str, suffix: &str) -> (r: bool)
    ensures
        r == ends_with_spec(s@, suffix@),
{
    s.ends_with(suffix)
}

/// Whether an output file belongs in the Gerber archive: a Gerber layer or a
/// drill file.
pub fn is_gerber_output(name: &str) -> (r: bool)
    ensures
        r == (ends_with_spec(name@, ".gbr"@) || ends_with_spec(name@, ".drl"@)),
{
    text_ends_with(name, ".gbr") || text_ends_with(name, ".drl")
}

/// Whether an output file is the top side's placement table.
pub fn is_top_placement(name: &str) -> (r: bool)
    ensures
        r == ends_with_spec(name@, "top-pos.csv"@),
{
    text_ends_with(name, "top-pos.csv")
}

/// A row of the bill of materials as the design tool exports it.
#[derive(Debug, Clone)]
pub struct CustomEntry {
    /// Comma separated designator list.
    pub designators: String,
    pub jlcpcb_part: String,
}

/// A row of the bill of materials in the assembler's format.
#[derive(Debug, Clone)]
pub struct JlcpcbEntry {
    pub comment: String,
    /// Comma separated designator list.
    pub designators: String,
    pub footprint: String,
    pub jlcpcb_part: String,
}

/// Whether `part` is the one a row names: its trimmed identifier is the row's.
pub open spec fn names_part(entry_part: Seq<char>, part: Part) -> bool {
    trim_of(part.lcsc@) == entry_part
}

/// Whether some part in `parts` is the one the row names.
pub open spec fn has_part(entry_part: Seq<char>, parts: Seq<Part>) -> bool {
    exists|j: int| 0 <= j < parts.len() && names_part(entry_part, #[trigger] parts[j])
}

/// Whether `j` is the first position in `parts` of the part the row names.
pub open spec fn first_part_at(entry_part: Seq<char>, parts: Seq<Part>, j: int) -> bool {
    0 <= j < parts.len() && names_part(entry_part, parts[j])
        && forall|i: int| 0 <= i < j ==> !names_part(entry_part, #[trigger] parts[i])
}

/// Whether `out` is the assembler's row for `entry` and `part`: the part's
/// description and package beside the row's designators and identifier.
pub open spec fn joined(out: JlcpcbEntry, entry: CustomEntry, part: Part) -> bool {
    out.comment@ == part.desc@ && out.designators@ == entry.designators@
        && out.footprint@ == part.package@ && out.jlcpcb_part@ == entry.jlcpcb_part@
}

/// Whether `out` is the assembler's row for `entry` joined with the first part
/// of `parts` that it names.
pub open spec fn row_for(out: JlcpcbEntry, entry: CustomEntry, parts: Seq<Part>) -> bool {
    exists|j: int| first_part_at(entry.jlcpcb_part@, parts, j) && joined(out, entry, parts[j])
}

/// Position of the first part that the row names, if any.
pub fn find_part(entry_part: &String, parts: &Vec<Part>) -> (r: Option<usize>)
    ensures
        r is None <==> !has_part(entry_part@, parts@),
        r is Some ==> first_part_at(entry_part@, parts@, r->0 as int),
{
    let mut j: usize = 0;
    while j < parts.len()
        invariant
            j <= parts@.len(),
            forall|i: int| 0 <= i < j ==> !names_part(entry_part@, #[trigger] parts@[i]),
        decreases parts@.len() - j,
    {
        let id = trimmed(parts[j].lcsc.as_str());
        if id.eq(entry_part) {
            return Some(j);
        }
        j = j + 1;
    }
    None
}

/// Joins each bill-of-materials row with the first part of the list that it
/// names. Fails with the position of the first row that names no part.
pub fn bom_entries(entries: &Vec<CustomEntry>, parts: &Vec<Part>) -> (r: Result<Vec<JlcpcbEntry>, usize>)
    ensures
        r is Ok <==> forall|k: int| 0 <= k < entries@.len() ==> has_part(#[trigger] entries@[k].jlcpcb_part@, parts@),
        r is Err ==> r->Err_0 < entries@.len() && !has_part(entries@[r->Err_0 as int].jlcpcb_part@, parts@)
            && forall|k: int| 0 <= k < r->Err_0 ==> has_part(#[trigger] entries@[k].jlcpcb_part@, parts@),
        r is Ok ==> r->Ok_0@.len() == entries@.len() && forall|k: int| 0 <= k < entries@.len() ==>
            #[trigger] row_for(r->Ok_0@[k], entries@[k], parts@),
{
    let mut out: Vec<JlcpcbEntry> = Vec::new();
    let mut k: usize = 0;
    while k < entries.len()
        invariant
            k <= entries@.len(),
            out@.len() == k,
            forall|i: int| 0 <= i < k ==> has_part(#[trigger] entries@[i].jlcpcb_part@, parts@),
            forall|i: int| 0 <= i < k ==> #[trigger] row_for(out@[i], entries@[i], parts@),
        decreases entries@.len() - k,
    {
        let entry = &entries[k];
        match find_part(&entry.jlcpcb_part, parts) {
            None => return Err(k),
            Some(j) => {
                let part = &parts[j];
                let row = JlcpcbEntry {
                    comment: part.desc.clone(),
                    designators: entry.designators.clone(),
                    footprint: part.package.clone(),
                    jlcpcb_part: entry.jlcpcb_part.clone(),
                };
                let ghost before = out@;
                out.push(row);
                proof {
                    assert(joined(out@[k as int], entries@[k as int], parts@[j as int]));
                    assert(row_for(out@[k as int], entries@[k as int], parts@));
                    assert forall|i: int| 0 <= i <= k implies #[trigger] row_for(out@[i], entries@[i], parts@) by {
                        if i < k {
                            assert(out@[i] == before[i]);
                        }
                    }
                }
            },
        }
        k = k + 1;
    }
    Ok(out)
}

/// Position of the first designator that an earlier one repeats, if any: a
/// rotation table names each designator once.
pub fn repeated_designator(designators: &Vec<String>) -> (r: Option<usize>)
    ensures
        r is None <==> forall|i: int, j: int| 0 <= i < j < designators@.len() ==> #[trigger] designators@[i]@ != #[trigger] designators@[j]@,
        r is Some ==> r->0 < designators@.len() && exists|i: int| 0 <= i < r->0 && #[trigger] designators@[i]@ == designators@[r->0 as int]@,
        r is Some ==> forall|i: int, j: int| 0 <= i < j < r->0 ==> #[trigger] designators@[i]@ != #[trigger] designators@[j]@,
{
    let mut j: usize = 0;
    while j < designators.len()
        invariant
            j <= designators@.len(),
            forall|a: int, b: int| 0 <= a < b < j ==> #[trigger] designators@[a]@ != #[trigger] designators@[b]@,
        decreases designators@.len() - j,
    {
        let mut i: usize = 0;
        while i < j
            invariant
                i <= j < designators@.len(),
                forall|a: int, b: int| 0 <= a < b < j ==> #[trigger] designators@[a]@ != #[trigger] designators@[b]@,
                forall|a: int| 0 <= a < i ==> #[trigger] designators@[a]@ != designators@[j as int]@,
            decreases j - i,
        {
            if designators[i].eq(&designators[j]) {
                return Some(j);
            }
            i = i + 1;
        }
        j = j + 1;
    }
    None
}

} // verus!
