//! Locating a backlight interface and the files beneath it.
//!
//! The kernel exposes each interface as a directory under a fixed root;
//! this tool tries a fixed, ordered list of interface names and takes the
//! first whose directory exists.  Existence is a fact about the
//! filesystem, so the shell checks it and hands the names of the existing
//! directories in; the choice among them is made here.

use crate::errors::BrightnessError;
use vstd::prelude::*;

verus! {

/// The fixed, ordered candidate interface names.
pub open spec fn spec_candidates() -> Seq<Seq<char>> {
    seq!["intel_backlight"@, "acpi_video0"@]
}

/// The fixed root under which every backlight interface lives.
pub open spec fn spec_backlight_root() -> Seq<char> {
    "/sys/class/backlight/"@
}

/// The directory of one interface.
pub open spec fn spec_interface_dir(interface: Seq<char>) -> Seq<char> {
    spec_backlight_root() + interface
}

/// The file holding the current raw brightness of one interface.
pub open spec fn spec_brightness_path(interface: Seq<char>) -> Seq<char> {
    spec_interface_dir(interface) + "/brightness"@
}

/// The file holding the highest raw brightness of one interface.
pub open spec fn spec_max_brightness_path(interface: Seq<char>) -> Seq<char> {
    spec_interface_dir(interface) + "/max_brightness"@
}

/// Is `name` one of the listed existing names?
pub open spec fn spec_name_listed(existing: Seq<String>, name: Seq<char>) -> bool {
    exists|j: int| 0 <= j < existing.len() && existing[j]@ == name
}

/// The candidate interface names, in the order they are tried.
pub fn candidate_interfaces() -> (r: Vec<String>)
    ensures
        r@.len() == spec_candidates().len(),
        forall|i: int| 0 <= i < r@.len() ==> r@[i]@ == spec_candidates()[i],
{
    let mut v: Vec<String> = Vec::new();
    v.push(String::from_str("intel_backlight"));
    v.push(String::from_str("acpi_video0"));
    v
}

/// The first candidate interface whose directory exists, given the names
/// of the candidate directories that do exist; `NoInterfaceFound` exactly
/// when none does.
pub fn get_default_interface_name(existing: &Vec<String>) -> (r: Result<String, BrightnessError>)
    ensures
        r matches Ok(name) ==> exists|i: int|
            0 <= i < spec_candidates().len() && name@ == spec_candidates()[i] && spec_name_listed(
                existing@,
                spec_candidates()[i],
            ) && (forall|h: int| 0 <= h < i ==> !spec_name_listed(existing@, spec_candidates()[h])),
        r is Err <==> (forall|i: int|
            0 <= i < spec_candidates().len() ==> !spec_name_listed(existing@, spec_candidates()[i])),
        r matches Err(e) ==> e is NoInterfaceFound,
{
    let cands = candidate_interfaces();
    let mut i: usize = 0;
    while i < cands.len()
        invariant
            cands@.len() == spec_candidates().len(),
            forall|k: int| 0 <= k < cands@.len() ==> cands@[k]@ == spec_candidates()[k],
            0 <= i <= cands@.len(),
            forall|h: int| 0 <= h < i ==> !spec_name_listed(existing@, spec_candidates()[h]),
        decreases cands@.len() - i,
    {
        let mut j: usize = 0;
        while j < existing.len()
            invariant
                0 <= j <= existing@.len(),
                cands@.len() == spec_candidates().len(),
                0 <= i < cands@.len(),
                cands@[i as int]@ == spec_candidates()[i as int],
                forall|h: int| 0 <= h < i ==> !spec_name_listed(existing@, spec_candidates()[h]),
                forall|t: int| 0 <= t < j ==> existing@[t]@ != spec_candidates()[i as int],
            decreases existing@.len() - j,
        {
            if existing[j] == cands[i] {
                let name = cands[i].clone();
                return Ok(name);
            }
            j = j + 1;
        }
        i = i + 1;
    }
    Err(BrightnessError::NoInterfaceFound)
}

/// The directory path of one interface: where existence is checked.
pub fn interface_dir_path(interface: &str) -> (r: String)
    ensures
        r@ == spec_interface_dir(interface@),
{
    String::from_str("/sys/class/backlight/").concat(interface)
}

/// The path of one interface's brightness file.
pub fn brightness_path_of(interface: &str) -> (r: String)
    ensures
        r@ == spec_brightness_path(interface@),
{
    let r = interface_dir_path(interface).concat("/brightness");
    proof {
        assert(r@ =~= spec_brightness_path(interface@));
    }
    r
}

/// The path of one interface's max-brightness file.
pub fn max_brightness_path_of(interface: &str) -> (r: String)
    ensures
        r@ == spec_max_brightness_path(interface@),
{
    let r = interface_dir_path(interface).concat("/max_brightness");
    proof {
        assert(r@ =~= spec_max_brightness_path(interface@));
    }
    r
}

} // verus!
