//! Volume-size resolution: parsing the tabular disk-usage diagnostic
//! report into a table from volume name to byte count, and looking
//! names up in it.
//!
//! Only the report section introduced by a `VOLUME NAME` header line
//! matters.  The section runs until a blank line, the start of
//! another known section, or the end of the report.  An in-section
//! line is a valid entry when it has at least three
//! whitespace-delimited fields — name, reference count, size — and
//! its size token parses; malformed lines are dropped, never an
//! error.

use vstd::prelude::*;
use crate::errors::TelemetryError;
use crate::sizes::{parse_docker_size, spec_parse_size};
use crate::text::{
    spec_fields, spec_lines, spec_starts_with, spec_trim, split_fields, split_lines, str_eq,
    str_starts_with, trim_str,
};

verus! {

/// Does this trimmed line introduce the volume section?
pub open spec fn is_volume_header(t: Seq<char>) -> bool {
    spec_starts_with(t, "VOLUME NAME"@)
}

/// Does this trimmed line end the volume section: blank, or the
/// start of another known report section?
pub open spec fn is_section_end(t: Seq<char>) -> bool {
    ||| t.len() == 0
    ||| spec_starts_with(t, "Build Cache"@)
    ||| spec_starts_with(t, "REPOSITORY"@)
}

/// The entry a trimmed in-section line contributes, if it is
/// well-formed: field 0 is the volume name, field 2 the size token;
/// the reference-count column between them is ignored.
pub open spec fn line_entry(t: Seq<char>) -> Option<(Seq<char>, u64)> {
    let fs = spec_fields(t);
    if fs.len() >= 3 {
        match spec_parse_size(fs[2]) {
            Ok(v) => Some((fs[0], v)),
            Err(_) => None,
        }
    } else {
        None
    }
}

/// Is this trimmed line a well-formed volume entry?
pub open spec fn is_entry_line(t: Seq<char>) -> bool {
    line_entry(t) is Some
}

/// The entries the scanner collects from the given lines, starting
/// inside or outside the volume section.  A header line (re)enters
/// the section; outside it everything is ignored; a section-ending
/// line discards all remaining input.
pub open spec fn scan_entries(lines: Seq<Seq<char>>, in_section: bool) -> Seq<(Seq<char>, u64)>
    decreases lines.len(),
{
    if lines.len() == 0 {
        Seq::empty()
    } else {
        let t = spec_trim(lines[0]);
        if is_volume_header(t) {
            scan_entries(lines.drop_first(), true)
        } else if !in_section {
            scan_entries(lines.drop_first(), false)
        } else if is_section_end(t) {
            Seq::empty()
        } else {
            match line_entry(t) {
                Some(en) => seq![en] + scan_entries(lines.drop_first(), true),
                None => scan_entries(lines.drop_first(), true),
            }
        }
    }
}

/// The trimmed lines that lie within the volume section, headers
/// excluded.
pub open spec fn section_lines(lines: Seq<Seq<char>>, in_section: bool) -> Seq<Seq<char>>
    decreases lines.len(),
{
    if lines.len() == 0 {
        Seq::empty()
    } else {
        let t = spec_trim(lines[0]);
        if is_volume_header(t) {
            section_lines(lines.drop_first(), true)
        } else if !in_section {
            section_lines(lines.drop_first(), false)
        } else if is_section_end(t) {
            Seq::empty()
        } else {
            seq![t] + section_lines(lines.drop_first(), true)
        }
    }
}

/// How many of these trimmed lines are well-formed volume entries.
pub open spec fn count_entry_lines(lines: Seq<Seq<char>>) -> nat
    decreases lines.len(),
{
    if lines.len() == 0 {
        0
    } else {
        (if is_entry_line(lines[0]) {
            1 as nat
        } else {
            0 as nat
        }) + count_entry_lines(lines.drop_first())
    }
}

/// The scanner yields exactly one entry per well-formed line of the
/// volume section: malformed lines contribute nothing, and never an
/// error.
pub proof fn lemma_one_entry_per_well_formed_line(lines: Seq<Seq<char>>, in_section: bool)
    ensures
        scan_entries(lines, in_section).len() == count_entry_lines(
            section_lines(lines, in_section),
        ),
    decreases lines.len(),
{
    if lines.len() == 0 {
    } else {
        let t = spec_trim(lines[0]);
        if is_volume_header(t) {
            lemma_one_entry_per_well_formed_line(lines.drop_first(), true);
        } else if !in_section {
            lemma_one_entry_per_well_formed_line(lines.drop_first(), false);
        } else if is_section_end(t) {
        } else {
            lemma_one_entry_per_well_formed_line(lines.drop_first(), true);
            let rest = section_lines(lines.drop_first(), true);
            assert((seq![t] + rest).drop_first() =~= rest);
        }
    }
}

/// For every diagnostic report, the table holds exactly one entry
/// per well-formed line of its volume section.
pub proof fn lemma_report_entry_count(text: Seq<char>)
    ensures
        spec_volume_table(text).len() == count_entry_lines(
            section_lines(spec_lines(text), false),
        ),
{
    lemma_one_entry_per_well_formed_line(spec_lines(text), false);
}

/// The full mapping a diagnostic report denotes, in report order.
pub open spec fn spec_volume_table(text: Seq<char>) -> Seq<(Seq<char>, u64)> {
    scan_entries(spec_lines(text), false)
}

/// The size recorded for `name`: the last entry under that name, or
/// 0 when the name is absent.
pub open spec fn spec_lookup(entries: Seq<(Seq<char>, u64)>, name: Seq<char>) -> u64
    decreases entries.len(),
{
    if entries.len() == 0 {
        0
    } else if entries.last().0 == name {
        entries.last().1
    } else {
        spec_lookup(entries.drop_last(), name)
    }
}

/// A name that appears in no entry is reported as zero bytes, never
/// as a failure.
pub proof fn lemma_lookup_absent(entries: Seq<(Seq<char>, u64)>, name: Seq<char>)
    requires
        forall|i: int| 0 <= i < entries.len() ==> (#[trigger] entries[i]).0 != name,
    ensures
        spec_lookup(entries, name) == 0,
    decreases entries.len(),
{
    if entries.len() > 0 {
        lemma_lookup_absent(entries.drop_last(), name);
    }
}

/// Mapping from volume name to size in bytes, rebuilt from a fresh
/// diagnostic report on every resolution request.
pub struct VolumeSizeTable {
    entries: Vec<(String, u64)>,
}

impl View for VolumeSizeTable {
    type V = Seq<(Seq<char>, u64)>;

    closed spec fn view(&self) -> Seq<(Seq<char>, u64)> {
        Seq::new(self.entries@.len(), |i: int| (self.entries@[i].0@, self.entries@[i].1))
    }
}

impl VolumeSizeTable {
    /// The empty table.
    pub fn new() -> (t: VolumeSizeTable)
        ensures
            t@ == Seq::<(Seq<char>, u64)>::empty(),
    {
        let t = VolumeSizeTable { entries: Vec::new() };
        proof {
            assert(t@ =~= Seq::<(Seq<char>, u64)>::empty());
        }
        t
    }

    /// How many entries the table holds.
    pub fn len(&self) -> (n: usize)
        ensures
            n == self@.len(),
    {
        self.entries.len()
    }

    /// Parse a whole diagnostic report into the table it denotes.
    pub fn from_report(text: &str) -> (t: VolumeSizeTable)
        ensures
            t@ == spec_volume_table(text@),
    {
        let ghost all = spec_lines(text@);
        let lines = split_lines(text);
        let mut table = VolumeSizeTable::new();
        let mut in_section = false;
        let mut i: usize = 0;
        proof {
            assert(all.skip(0) =~= all);
            assert(table@ + scan_entries(all, false) =~= scan_entries(all, false));
        }
        while i < lines.len()
            invariant_except_break
                i <= lines.len(),
                lines.deep_view() == all,
                all == spec_lines(text@),
                scan_entries(all, false) == table@ + scan_entries(all.skip(i as int), in_section),
            ensures
                scan_entries(all, false) == table@,
            decreases lines.len() - i,
        {
            let ghost tail = all.skip(i as int);
            let ghost prev = table@;
            proof {
                assert(tail[0] == lines.deep_view()[i as int]);
                assert(tail.drop_first() =~= all.skip(i + 1));
            }
            let t = trim_str(lines[i].as_str());
            if str_starts_with(t.as_str(), "VOLUME NAME") {
                in_section = true;
            } else if !in_section {
                // Outside the volume section everything is ignored.
            } else if t.as_str().is_empty() || str_starts_with(t.as_str(), "Build Cache")
                || str_starts_with(t.as_str(), "REPOSITORY") {
                proof {
                    assert(scan_entries(tail, true) =~= Seq::<(Seq<char>, u64)>::empty());
                    assert(table@ + scan_entries(tail, true) =~= table@);
                }
                break ;
            } else {
                let fields = split_fields(t.as_str());
                if fields.len() >= 3 {
                    proof {
                        assert(fields.deep_view()[2] == fields@[2]@);
                        assert(fields.deep_view()[0] == fields@[0]@);
                    }
                    match parse_docker_size(fields[2].as_str()) {
                        Ok(size) => {
                            let name = fields[0].clone();
                            table.entries.push((name, size));
                            proof {
                                assert(line_entry(t@) == Some((fields@[0]@, size)));
                                assert(table@ =~= prev + seq![(fields@[0]@, size)]);
                                assert(prev + (seq![(fields@[0]@, size)] + scan_entries(
                                    all.skip(i + 1),
                                    true,
                                )) =~= table@ + scan_entries(all.skip(i + 1), true));
                            }
                        },
                        Err(_) => {
                            proof {
                                assert(line_entry(t@) is None);
                            }
                        },
                    }
                } else {
                    proof {
                        assert(line_entry(t@) is None);
                    }
                }
            }
            i = i + 1;
        }
        table
    }

    /// The size recorded for `name`, or 0 bytes when the name is
    /// absent — absence is not an error.
    pub fn get(&self, name: &str) -> (r: u64)
        ensures
            r == spec_lookup(self@, name@),
    {
        let mut j: usize = self.entries.len();
        proof {
            assert(self@.take(j as int) =~= self@);
        }
        while j > 0
            invariant
                j <= self.entries.len(),
                spec_lookup(self@, name@) == spec_lookup(self@.take(j as int), name@),
            decreases j,
        {
            let idx = j - 1;
            proof {
                assert(self@.take(j as int).last() == self@[idx as int]);
                assert(self@.take(j as int).drop_last() =~= self@.take(idx as int));
            }
            if str_eq(self.entries[idx].0.as_str(), name) {
                return self.entries[idx].1;
            }
            j = idx;
        }
        proof {
            assert(self@.take(0) =~= Seq::<(Seq<char>, u64)>::empty());
        }
        0
    }
}

/// Interpret the outcome of the disk-usage diagnostic process: on a
/// successful exit its captured standard output is parsed into the
/// table; any other exit is an execution failure carrying the
/// captured standard-error text.
pub fn volume_sizes_from_process_output(status_success: bool, stdout: &str, stderr: &str) -> (r:
    Result<VolumeSizeTable, TelemetryError>)
    ensures
        status_success ==> (r matches Ok(t) && t@ == spec_volume_table(stdout@)),
        !status_success ==> (r matches Err(e) && e matches TelemetryError::Execution(m) && m@
            == "Docker system df failed: "@ + stderr@),
{
    if status_success {
        Ok(VolumeSizeTable::from_report(stdout))
    } else {
        let mut msg = String::from_str("Docker system df failed: ");
        msg.append(stderr);
        Err(TelemetryError::Execution(msg))
    }
}

/// The size of one volume according to a diagnostic report: resolve
/// the full mapping, then look the name up, defaulting to 0 bytes.
pub fn volume_size_in_report(text: &str, name: &str) -> (r: u64)
    ensures
        r == spec_lookup(spec_volume_table(text@), name@),
{
    let table = VolumeSizeTable::from_report(text);
    table.get(name)
}

} // verus!
