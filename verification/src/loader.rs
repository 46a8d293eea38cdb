//! The roster loader: record lines of the form `<Name>, <Initiative>`,
//! split on the exact delimiter `", "`, failing fast on the first
//! malformed record.

use vstd::prelude::*;
use vstd::string::StrSliceExecFns;
use crate::TrackerError;
use crate::parse::int_str_val;
use crate::parse::parse_i32;
use crate::parse::valid_int_str;
use crate::roster::Combatant;

verus! {

/// The record delimiter `", "` occurs in `s` at position `i`.
pub open spec fn delim_at(s: Seq<char>, i: int) -> bool {
    &&& 0 <= i
    &&& i + 2 <= s.len()
    &&& s[i] == ','
    &&& s[i + 1] == ' '
}

/// A record line splits into exactly two fields on `", "`: the
/// delimiter occurs at exactly one position.
pub open spec fn is_record_line(s: Seq<char>) -> bool {
    &&& exists|i: int| delim_at(s, i)
    &&& forall|i: int, j: int| delim_at(s, i) && delim_at(s, j) ==> i == j
}

/// The position of the unique delimiter of a record line.
pub open spec fn delim_pos(s: Seq<char>) -> int {
    choose|i: int| delim_at(s, i)
}

/// The name field: everything before the delimiter, verbatim.  It may
/// be empty; the loader is deliberately more permissive than the
/// interactive form.
pub open spec fn name_of(s: Seq<char>) -> Seq<char> {
    s.take(delim_pos(s))
}

/// The initiative field: everything after the delimiter.
pub open spec fn initiative_str_of(s: Seq<char>) -> Seq<char> {
    s.skip(delim_pos(s) + 2)
}

/// A record line whose initiative field is a valid numeral.
pub open spec fn valid_record(s: Seq<char>) -> bool {
    is_record_line(s) && valid_int_str(initiative_str_of(s))
}

/// The error reported for an invalid record: the field count is
/// checked before the numeral.
pub open spec fn record_error(s: Seq<char>) -> TrackerError {
    if !is_record_line(s) {
        TrackerError::LineFormat
    } else {
        TrackerError::IntegerParse
    }
}

/// Parse one roster record.  The name is taken verbatim (no trimming,
/// empty allowed); the initiative must be a valid signed numeral.
pub fn parse_record(line: &str) -> (r: Result<Combatant, TrackerError>)
    ensures
        match r {
            Ok(c) => valid_record(line@) && c.name@ == name_of(line@) && c.initiative as int
                == int_str_val(initiative_str_of(line@)),
            Err(e) => !valid_record(line@) && e == record_error(line@),
        },
{
    let n = line.unicode_len();
    let limit: usize = if n == 0 {
        0
    } else {
        n - 1
    };
    let mut i: usize = 0;
    let mut found: Option<usize> = None;
    while i < limit
        invariant
            n == line@.len(),
            limit as int == if n == 0 {
                0int
            } else {
                n - 1
            },
            i <= n,
            match found {
                Some(f) => (f as int) < i && delim_at(line@, f as int) && (forall|j: int|
                    0 <= j < i && delim_at(line@, j) ==> j == f as int),
                None => forall|j: int| 0 <= j < i ==> !delim_at(line@, j),
            },
        decreases n - i,
    {
        if line.get_char(i) == ',' && line.get_char(i + 1) == ' ' {
            match found {
                Some(f) => {
                    proof {
                        assert(delim_at(line@, f as int));
                        assert(delim_at(line@, i as int));
                        assert(!is_record_line(line@));
                    }
                    return Err(TrackerError::LineFormat);
                },
                None => {
                    found = Some(i);
                },
            }
        }
        i = i + 1;
    }
    proof {
        assert forall|j: int| delim_at(line@, j) implies 0 <= j < i by {
            assert(j + 2 <= n);
        }
    }
    match found {
        None => {
            proof {
                assert(!is_record_line(line@));
            }
            Err(TrackerError::LineFormat)
        },
        Some(f) => {
            proof {
                assert(delim_at(line@, f as int));
                assert(is_record_line(line@));
                assert(delim_at(line@, delim_pos(line@)));
                assert(delim_pos(line@) == f as int);
            }
            let name_s = line.substring_char(0, f);
            let num_s = line.substring_char(f + 2, n);
            proof {
                assert(name_s@ =~= name_of(line@));
                assert(num_s@ =~= initiative_str_of(line@));
            }
            match parse_i32(num_s) {
                Some(v) => Ok(Combatant { name: name_s.to_owned(), initiative: v }),
                None => Err(TrackerError::IntegerParse),
            }
        },
    }
}

/// Load a roster from record lines: file order and field values are
/// preserved exactly, and the load aborts on the first invalid record
/// with that record's error.  No sorting happens here.
pub fn load_roster(lines: &Vec<String>) -> (r: Result<Vec<Combatant>, TrackerError>)
    ensures
        match r {
            Ok(ros) => {
                &&& forall|i: int| 0 <= i < lines@.len() ==> valid_record(#[trigger] lines@[i]@)
                &&& ros@.len() == lines@.len()
                &&& forall|i: int|
                    0 <= i < lines@.len() ==> (#[trigger] ros@[i]).name@ == name_of(lines@[i]@)
                &&& forall|i: int|
                    0 <= i < lines@.len() ==> (#[trigger] ros@[i]).initiative as int == int_str_val(
                        initiative_str_of(lines@[i]@),
                    )
            },
            Err(e) => exists|k: int|
                {
                    &&& 0 <= k < lines@.len()
                    &&& !valid_record((#[trigger] lines@[k])@)
                    &&& e == record_error(lines@[k]@)
                    &&& forall|j: int| 0 <= j < k ==> valid_record(#[trigger] lines@[j]@)
                },
        },
{
    let mut ros: Vec<Combatant> = Vec::new();
    let mut i: usize = 0;
    while i < lines.len()
        invariant
            i <= lines@.len(),
            ros@.len() == i,
            forall|j: int| 0 <= j < i ==> valid_record(#[trigger] lines@[j]@),
            forall|j: int| 0 <= j < i ==> (#[trigger] ros@[j]).name@ == name_of(lines@[j]@),
            forall|j: int|
                0 <= j < i ==> (#[trigger] ros@[j]).initiative as int == int_str_val(
                    initiative_str_of(lines@[j]@),
                ),
        decreases lines@.len() - i,
    {
        match parse_record(lines[i].as_str()) {
            Ok(c) => {
                ros.push(c);
            },
            Err(e) => {
                proof {
                    let k = i as int;
                    assert(!valid_record(lines@[k]@) && e == record_error(lines@[k]@));
                }
                return Err(e);
            },
        }
        i = i + 1;
    }
    Ok(ros)
}

} // verus!
